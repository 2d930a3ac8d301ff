use rustychess::driver::driver::Driver;
use rustychess::driver::game::Game;
use rustychess::logic::move_computer::StepComputer;
use rustychess::models::board::Board;
use rustychess::models::error::ChessError;
use rustychess::models::field_content::FieldContent;
use rustychess::models::game_state::GameState;
use rustychess::models::location::Location;
use rustychess::models::piece::{ColoredPiece, PieceColor, PieceKind};
use rustychess::models::step::{Step, StepKind};
use rustychess::utils::board_creation::BoardCreation;

fn game_of(description: &str) -> Game {
    Game {
        board: BoardCreation::from_description(description.to_string()).unwrap(),
    }
}

fn same_squares(a: &Board, b: &Board) -> bool {
    a.turn() == b.turn()
        && a.locations() == b.locations()
        && a.locations()
            .iter()
            .all(|location| a.field_at_location(location) == b.field_at_location(location))
}

#[test]
fn new_game_starts_on_the_standard_board() {
    let game = Game::new();
    assert!(same_squares(&game.board, &Board::standard_board()));
    assert!(same_squares(&Game::default().board, &Board::standard_board()));
    assert_eq!(game.board.turn_color(), PieceColor::White);
}

#[test]
fn legal_input_is_played() {
    let mut game = Game::new();
    assert_eq!(game.apply_input("e2e4"), Ok(GameState::Ongoing));
    assert_eq!(game.board.turn(), 1);
    assert_eq!(game.board.turn_color(), PieceColor::Black);
    assert_eq!(game.board.field_at_xy(4, 1), Some(&FieldContent::Empty));
    assert_eq!(
        game.board.field_at_xy(4, 3),
        Some(&FieldContent::Occupied {
            piece: ColoredPiece {
                kind: PieceKind::Pawn,
                color: PieceColor::White
            },
            turn: 0
        })
    );
    assert_eq!(game.apply_input("E7E5"), Ok(GameState::Ongoing));
    assert_eq!(game.board.turn(), 2);
}

#[test]
fn illegal_input_is_refused_with_the_legal_moves() {
    let mut game = Game::new();
    let legal = game.board.compute_steps();
    let before = game.board.clone();
    assert_eq!(
        game.apply_input("e2e5"),
        Err(ChessError::IllegalMove {
            attempted: StepKind::GoTo(Step::new((4, 1), (4, 4))),
            legal: legal.clone(),
        })
    );
    assert!(same_squares(&game.board, &before));
    // a move of the side that is not to move
    assert_eq!(
        game.apply_input("e7e5"),
        Err(ChessError::IllegalMove {
            attempted: StepKind::GoTo(Step::new((4, 6), (4, 4))),
            legal: legal.clone(),
        })
    );
    // castling through pieces
    assert!(matches!(
        game.apply_input("O-O"),
        Err(ChessError::IllegalMove { .. })
    ));
    assert!(same_squares(&game.board, &before));
}

#[test]
fn malformed_input_is_refused() {
    let mut game = Game::new();
    let before = game.board.clone();
    assert_eq!(game.apply_input(""), Err(ChessError::InvalidMoveFormat));
    assert_eq!(game.apply_input("hello"), Err(ChessError::InvalidMoveFormat));
    assert_eq!(game.apply_input("e2e?"), Err(ChessError::InvalidLocation));
    assert_eq!(game.apply_input("e7e8="), Err(ChessError::InvalidPromotion));
    assert_eq!(
        game.apply_input("e7e8=Z"),
        Err(ChessError::InvalidPieceKind('z'))
    );
    assert!(same_squares(&game.board, &before));
}

#[test]
fn fools_mate_is_won_by_black() {
    let mut game = Game::new();
    assert_eq!(game.apply_input("f2f3"), Ok(GameState::Ongoing));
    assert_eq!(game.apply_input("e7e5"), Ok(GameState::Ongoing));
    assert_eq!(game.apply_input("g2g4"), Ok(GameState::Ongoing));
    assert_eq!(
        game.apply_input("d8h4"),
        Ok(GameState::Won(PieceColor::Black))
    );
    let evaluation = game.board.evaluate_basic();
    assert!(evaluation.has_checkmate && evaluation.has_check && !evaluation.has_stalemate);
    assert!(evaluation.possible_moves.is_empty());
}

#[test]
fn stalemate_is_a_draw() {
    let mut game = game_of("a8kb\nc6qw\nh1kw");
    assert_eq!(game.apply_input("c6c7"), Ok(GameState::Stalemate));
    assert_eq!(game.board.turn_color(), PieceColor::Black);
}

#[test]
fn castling_and_promotion_by_input() {
    let mut castle = game_of("e1kw\nh1rw\na1rw\ne8kb");
    assert_eq!(castle.apply_input("O-O"), Ok(GameState::Ongoing));
    assert_eq!(
        castle.board.find_king(PieceColor::White),
        Some(Location::new(6, 0))
    );
    assert!(castle.board.location_contains_piece(
        &Location::new(5, 0),
        vec![PieceKind::Rook],
        PieceColor::White
    ));

    let mut promote = game_of("a7pw\nh1kw\nh8kb");
    assert_eq!(promote.apply_input("a7a8=Q"), Ok(GameState::Ongoing));
    assert!(promote.board.location_contains_piece(
        &Location::new(0, 7),
        vec![PieceKind::Queen],
        PieceColor::White
    ));
    // the plain step onto the last rank is no legal move
    let mut plain = game_of("a7pw\nh1kw\nh8kb");
    assert!(matches!(
        plain.apply_input("a7a8"),
        Err(ChessError::IllegalMove { .. })
    ));
}

#[test]
fn a_side_without_king_cannot_move() {
    let mut game = game_of("a1rw\nh8kb");
    let before = game.board.clone();
    assert_eq!(
        game.apply_input("a1a2"),
        Err(ChessError::MissingKing(PieceColor::White))
    );
    assert_eq!(
        game.apply_stepkind(StepKind::GoTo(Step::new((0, 0), (0, 1)))),
        Err(ChessError::MissingKing(PieceColor::White))
    );
    assert!(same_squares(&game.board, &before));
    // a move after which the other side could not be evaluated
    let mut lonely = game_of("a1kw\na2rw");
    let before = lonely.board.clone();
    assert_eq!(
        lonely.apply_input("a2a3"),
        Err(ChessError::MissingKing(PieceColor::Black))
    );
    assert!(same_squares(&lonely.board, &before));
}

#[test]
fn structured_moves_are_played_or_passed_over() {
    let mut game = Game::new();
    let before = game.board.clone();
    // not legal: nothing happens, and the game goes on
    assert_eq!(
        game.apply_stepkind(StepKind::GoTo(Step::new((4, 1), (4, 4)))),
        Ok(GameState::Ongoing)
    );
    assert!(same_squares(&game.board, &before));
    assert_eq!(
        game.apply_stepkind(StepKind::GoTo(Step::new((4, 1), (4, 3)))),
        Ok(GameState::Ongoing)
    );
    assert_eq!(game.board.turn(), 1);
    assert_eq!(
        game.apply_stepkind(StepKind::GoTo(Step::new((0, 6), (0, 5)))),
        Ok(GameState::Ongoing)
    );
    assert_eq!(game.board.turn(), 2);
}

#[test]
fn game_state_messages() {
    assert_eq!(GameState::Ongoing.message(), "Game is still ongoing");
    assert_eq!(
        GameState::Stalemate.message(),
        "Game ended in a draw because of stalemate"
    );
    assert_eq!(
        GameState::Won(PieceColor::White).message(),
        "White has won the game"
    );
    assert_eq!(
        GameState::Won(PieceColor::Black).message(),
        "Black has won the game"
    );
}

#[test]
fn driver_reports() {
    assert_eq!(
        Driver::report(&Ok(GameState::Ongoing)),
        ("Move executed", false)
    );
    assert_eq!(
        Driver::report(&Ok(GameState::Stalemate)),
        ("Game ended in stalemate!!!", false)
    );
    assert_eq!(
        Driver::report(&Ok(GameState::Won(PieceColor::Black))),
        ("Color Black has won!", true)
    );
    assert_eq!(
        Driver::report(&Ok(GameState::Won(PieceColor::White))),
        ("Color White has won!", true)
    );
    assert_eq!(
        Driver::report(&Err(ChessError::InvalidMoveFormat)),
        ("Move failed with error", false)
    );
}

#[test]
fn descriptions_are_read_line_by_line() {
    let board =
        BoardCreation::from_description("\n  a1kw  \r\n\tH8QB\n\n   \nc3nW and more\n".to_string())
            .unwrap();
    assert_eq!(board.width(), 8);
    assert_eq!(board.height(), 8);
    assert_eq!(board.turn(), 0);
    let piece = |kind, color| {
        Some(FieldContent::Occupied {
            piece: ColoredPiece { kind, color },
            turn: 0,
        })
    };
    for location in board.locations() {
        let expected = match (location.x, location.y) {
            (0, 0) => piece(PieceKind::King, PieceColor::White),
            (7, 7) => piece(PieceKind::Queen, PieceColor::Black),
            (2, 2) => piece(PieceKind::Knight, PieceColor::White),
            _ => Some(FieldContent::Empty),
        };
        assert_eq!(board.field_at_location(&location).copied(), expected);
    }
    let empty = BoardCreation::from_description(String::new()).unwrap();
    assert!(same_squares(&empty, &Board::new(8, 8)));
    // a later line replaces an earlier one
    let twice = BoardCreation::from_description("a1kw\na1qb".to_string()).unwrap();
    assert_eq!(
        twice.field_at_xy(0, 0).copied(),
        piece(PieceKind::Queen, PieceColor::Black)
    );
}

#[test]
fn descriptions_that_cannot_be_read() {
    let read = |text: &str| BoardCreation::from_description(text.to_string()).err();
    assert_eq!(read("a1k"), Some(ChessError::InvalidPlacement));
    assert_eq!(read("a1kw\nb"), Some(ChessError::InvalidPlacement));
    assert_eq!(read("11kw"), Some(ChessError::InvalidLocation));
    assert_eq!(read("a0kw"), Some(ChessError::InvalidLocation));
    assert_eq!(read("a1xw"), Some(ChessError::InvalidPieceKind('x')));
    assert_eq!(read("a1kx"), Some(ChessError::InvalidColor('x')));
    assert_eq!(
        read("i1kw"),
        Some(ChessError::OutOfBounds(Location::new(8, 0)))
    );
    assert_eq!(
        read("a9kw"),
        Some(ChessError::OutOfBounds(Location::new(0, 8)))
    );
    // the first line that fails decides
    assert_eq!(read("a1kw\na1xw\n11kw"), Some(ChessError::InvalidPieceKind('x')));
}
