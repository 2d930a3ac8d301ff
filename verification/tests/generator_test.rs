use rustychess::logic::move_computer::StepComputer;
use rustychess::models::board::Board;
use rustychess::models::location::Location;
use rustychess::models::piece::{ColoredPiece, PieceColor, PieceKind};
use rustychess::models::step::{Step, StepKind};
use rustychess::utils::board_creation::BoardCreation;

fn board_of(description: &str) -> Board {
    BoardCreation::from_description(description.to_string()).unwrap()
}

fn go(from: (usize, usize), to: (usize, usize)) -> StepKind {
    StepKind::GoTo(Step::new(from, to))
}

fn targets(steps: &[StepKind]) -> Vec<(usize, usize)> {
    let mut all: Vec<(usize, usize)> = steps
        .iter()
        .filter_map(|step| step.target())
        .map(|location| (location.x, location.y))
        .collect();
    all.sort();
    all
}

/// Hands the move to the other side by moving a piece of the side to move
/// that stands out of the way.
fn pass_turn(board: &mut Board, from: (usize, usize), to: (usize, usize)) {
    board.apply_step_kind(&go(from, to)).unwrap();
}

#[test]
fn standard_position_has_twenty_moves() {
    let board = Board::standard_board();
    let steps = board.compute_steps();
    assert_eq!(steps.len(), 20);
    assert!(steps.contains(&go((4, 1), (4, 3))));
    assert!(steps.contains(&go((4, 1), (4, 2))));
    assert!(steps.contains(&go((1, 0), (2, 2))));
    assert!(steps.contains(&go((6, 0), (7, 2))));
    assert!(!steps.contains(&go((4, 1), (4, 4))));
    assert!(!steps.contains(&go((0, 0), (0, 1))));
    assert!(!board.has_check(None));
    assert!(!board.has_check(Some(PieceColor::Black)));
}

#[test]
fn rook_walks_until_blocked_and_lists_far_squares_first() {
    let board = board_of("a1rw\na4pw\nc1pb");
    let steps = board.compute_field_steps(&Location::new(0, 0), PieceColor::White);
    // up: a3, a2 (a4 is an own piece); down and left: off the board; right: b1, then the capture on c1
    assert_eq!(
        steps,
        vec![
            go((0, 0), (0, 2)),
            go((0, 0), (0, 1)),
            go((0, 0), (2, 0)),
            go((0, 0), (1, 0)),
        ]
    );
    assert_eq!(
        board.compute_field_steps(&Location::new(0, 0), PieceColor::Black),
        vec![]
    );
    assert_eq!(
        board.compute_field_steps(&Location::new(5, 5), PieceColor::White),
        vec![]
    );
    assert_eq!(
        board.compute_field_steps(&Location::new(9, 9), PieceColor::White),
        vec![]
    );
}

#[test]
fn simple_steps_go_square_by_square() {
    let board = board_of("b1nw\na1kw\nh8kb");
    let white = board.compute_simple_steps(None);
    assert_eq!(
        white,
        vec![
            // the king on a1: diagonal first, then straight
            go((0, 0), (1, 1)),
            go((0, 0), (0, 1)),
            // the knight on b1
            go((1, 0), (2, 2)),
            go((1, 0), (0, 2)),
            go((1, 0), (3, 1)),
        ]
    );
    assert_eq!(board.compute_simple_steps(Some(PieceColor::White)), white);
    let black = board.compute_simple_steps(Some(PieceColor::Black));
    assert_eq!(
        black,
        vec![go((7, 7), (6, 6)), go((7, 7), (7, 6)), go((7, 7), (6, 7))]
    );
}

#[test]
fn pawn_steps() {
    // a free pawn may go one or two squares; it takes diagonally only
    let board = board_of("e2pw\nd3pb\nf3pw\na1kw");
    assert_eq!(
        board.compute_field_steps(&Location::new(4, 1), PieceColor::White),
        vec![go((4, 1), (4, 3)), go((4, 1), (4, 2)), go((4, 1), (3, 2))]
    );
    // a pawn cannot take what stands in front of it
    let blocked = board_of("e2pw\ne3pb");
    assert_eq!(
        blocked.compute_field_steps(&Location::new(4, 1), PieceColor::White),
        vec![]
    );
    let half_blocked = board_of("e2pw\ne4pb");
    assert_eq!(
        half_blocked.compute_field_steps(&Location::new(4, 1), PieceColor::White),
        vec![go((4, 1), (4, 2))]
    );
    // black pawns go down the board
    let black = board_of("e7pb\nf6pw");
    assert_eq!(
        black.compute_field_steps(&Location::new(4, 6), PieceColor::Black),
        vec![go((4, 6), (4, 4)), go((4, 6), (4, 5)), go((4, 6), (5, 5))]
    );
}

#[test]
fn king_and_knight_take_one_step() {
    let board = board_of("d4kw\ng1nw");
    assert_eq!(
        targets(&board.compute_field_steps(&Location::new(3, 3), PieceColor::White)),
        vec![(2, 2), (2, 3), (2, 4), (3, 2), (3, 4), (4, 2), (4, 3), (4, 4)]
    );
    assert_eq!(
        targets(&board.compute_field_steps(&Location::new(6, 0), PieceColor::White)),
        vec![(4, 1), (5, 2), (7, 2)]
    );
}

#[test]
fn bishop_and_queen_slide() {
    let board = board_of("a1bw\nd4qw");
    assert_eq!(
        targets(&board.compute_field_steps(&Location::new(0, 0), PieceColor::White)),
        vec![(1, 1), (2, 2)]
    );
    assert_eq!(
        board
            .compute_field_steps(&Location::new(3, 3), PieceColor::White)
            .len(),
        // 12 squares on the diagonals up to the own bishop, 14 on file and rank
        12 + 14
    );
}

#[test]
fn promotions_replace_the_step_onto_the_far_rank() {
    let board = board_of("a7pw\nb8rb\nh1kw\nh2pw");
    let mut steps = board.compute_simple_steps(None);
    let before = steps.clone();
    assert!(before.contains(&go((0, 6), (0, 7))));
    assert!(before.contains(&go((0, 6), (1, 7))));
    board.extend_promotions(&mut steps);
    let plain: Vec<StepKind> = before
        .iter()
        .cloned()
        .filter(|step| *step != go((0, 6), (0, 7)) && *step != go((0, 6), (1, 7)))
        .collect();
    let mut expected = plain.clone();
    // the steps onto the far rank in the order in which they were generated
    let promoting: Vec<Step> = before
        .iter()
        .filter_map(|step| match step {
            StepKind::GoTo(step) if step.from == Location::new(0, 6) => Some(*step),
            _ => None,
        })
        .collect();
    assert_eq!(promoting.len(), 2);
    for step in promoting.iter().rev() {
        expected.extend(StepKind::possible_promotions(*step));
    }
    assert_eq!(steps, expected);
    assert_eq!(steps.len(), plain.len() + 12);
    // the pawn on h2 is far from promotion, and its steps stay
    assert!(steps.contains(&go((7, 1), (7, 3))));
}

#[test]
fn black_pawn_promotes_on_the_first_rank() {
    let mut board = board_of("a2pb\nh8kb\nh1kw");
    let mut white_steps = vec![go((0, 1), (0, 0)), go((7, 0), (6, 0))];
    board.extend_promotions(&mut white_steps);
    let mut expected = vec![go((7, 0), (6, 0))];
    expected.extend(StepKind::possible_promotions(Step::new((0, 1), (0, 0))));
    assert_eq!(white_steps, expected);
    pass_turn(&mut board, (7, 0), (6, 0));
    let steps = board.compute_steps();
    let promotions: Vec<&StepKind> = steps
        .iter()
        .filter(|step| matches!(step, StepKind::Promote { .. }))
        .collect();
    assert_eq!(promotions.len(), 6);
    assert!(!steps.contains(&go((0, 1), (0, 0))));
}

#[test]
fn extend_promotions_leaves_other_moves_alone() {
    let board = board_of("a8rw\ne1kw");
    let mut steps = vec![
        go((0, 7), (1, 7)),
        go((3, 3), (3, 7)),
        StepKind::Castle {
            king_step: Step::new((4, 0), (6, 0)),
            rook_step: Step::new((7, 0), (5, 0)),
        },
    ];
    let before = steps.clone();
    board.extend_promotions(&mut steps);
    assert_eq!(steps, before);
    let mut none: Vec<StepKind> = vec![];
    board.extend_promotions(&mut none);
    assert_eq!(none, vec![]);
}

fn castles_of(board: &Board) -> Vec<StepKind> {
    board
        .compute_steps()
        .into_iter()
        .filter(|step| matches!(step, StepKind::Castle { .. }))
        .collect()
}

fn long_castle(rank: usize) -> StepKind {
    StepKind::Castle {
        king_step: Step::new((4, rank), (2, rank)),
        rook_step: Step::new((0, rank), (3, rank)),
    }
}

fn short_castle(rank: usize) -> StepKind {
    StepKind::Castle {
        king_step: Step::new((4, rank), (6, rank)),
        rook_step: Step::new((7, rank), (5, rank)),
    }
}

#[test]
fn castling_both_sides() {
    let board = board_of("e1kw\na1rw\nh1rw");
    assert_eq!(board.castle_moves(), vec![long_castle(0), short_castle(0)]);
    assert_eq!(castles_of(&board), vec![long_castle(0), short_castle(0)]);
}

#[test]
fn castling_for_black_on_the_last_rank() {
    let mut board = board_of("e8kb\na8rb\nh8rb\na1kw");
    assert_eq!(board.castle_moves(), vec![]);
    pass_turn(&mut board, (0, 0), (0, 1));
    assert_eq!(board.castle_moves(), vec![long_castle(7), short_castle(7)]);
    assert_eq!(castles_of(&board), vec![long_castle(7), short_castle(7)]);
}

#[test]
fn castling_needs_rook_king_and_free_squares() {
    // a rook is missing
    assert_eq!(board_of("e1kw\nh1rw").castle_moves(), vec![short_castle(0)]);
    assert_eq!(board_of("e1kw\na1rw").castle_moves(), vec![long_castle(0)]);
    assert_eq!(board_of("e1kw").castle_moves(), vec![]);
    // the king is missing or elsewhere
    assert_eq!(board_of("a1rw\nh1rw").castle_moves(), vec![]);
    assert_eq!(board_of("d1kw\na1rw\nh1rw").castle_moves(), vec![]);
    // a square between king and rook is taken, whoever holds it
    assert_eq!(
        board_of("e1kw\na1rw\nh1rw\nb1nw").castle_moves(),
        vec![short_castle(0)]
    );
    assert_eq!(
        board_of("e1kw\na1rw\nh1rw\nc1bb").castle_moves(),
        vec![short_castle(0)]
    );
    assert_eq!(
        board_of("e1kw\na1rw\nh1rw\nd1qw").castle_moves(),
        vec![short_castle(0)]
    );
    assert_eq!(
        board_of("e1kw\na1rw\nh1rw\nf1bw").castle_moves(),
        vec![long_castle(0)]
    );
    assert_eq!(
        board_of("e1kw\na1rw\nh1rw\ng1nb").castle_moves(),
        vec![long_castle(0)]
    );
    // the rook belongs to the other side, or the piece is no rook
    assert_eq!(
        board_of("e1kw\na1rb\nh1rw").castle_moves(),
        vec![short_castle(0)]
    );
    assert_eq!(
        board_of("e1kw\na1rw\nh1qw").castle_moves(),
        vec![long_castle(0)]
    );
}

#[test]
fn castling_is_lost_when_king_or_rook_has_moved() {
    let king = ColoredPiece {
        kind: PieceKind::King,
        color: PieceColor::White,
    };
    let rook = ColoredPiece {
        kind: PieceKind::Rook,
        color: PieceColor::White,
    };
    let mut moved_king = Board::new(8, 8);
    moved_king.put_piece_on_field_xy(king, (4, 0), 2);
    moved_king.put_piece_on_field_xy(rook, (0, 0), 0);
    moved_king.put_piece_on_field_xy(rook, (7, 0), 0);
    assert_eq!(moved_king.castle_moves(), vec![]);
    let mut moved_rook = Board::new(8, 8);
    moved_rook.put_piece_on_field_xy(king, (4, 0), 0);
    moved_rook.put_piece_on_field_xy(rook, (0, 0), 4);
    moved_rook.put_piece_on_field_xy(rook, (7, 0), 0);
    assert_eq!(moved_rook.castle_moves(), vec![short_castle(0)]);
    let mut other_rook = Board::new(8, 8);
    other_rook.put_piece_on_field_xy(king, (4, 0), 0);
    other_rook.put_piece_on_field_xy(rook, (0, 0), 0);
    other_rook.put_piece_on_field_xy(rook, (7, 0), 6);
    assert_eq!(other_rook.castle_moves(), vec![long_castle(0)]);
}

#[test]
fn castling_on_other_boards() {
    let king = ColoredPiece {
        kind: PieceKind::King,
        color: PieceColor::White,
    };
    let rook = ColoredPiece {
        kind: PieceKind::Rook,
        color: PieceColor::White,
    };
    // too narrow for the king's home file
    assert_eq!(Board::new(4, 4).castle_moves(), vec![]);
    assert_eq!(Board::new(0, 0).castle_moves(), vec![]);
    // seven files: the rook of the last file stands where the king would land
    let mut narrow = Board::new(7, 3);
    narrow.put_piece_on_field_xy(king, (4, 0), 0);
    narrow.put_piece_on_field_xy(rook, (0, 0), 0);
    narrow.put_piece_on_field_xy(rook, (6, 0), 0);
    assert_eq!(narrow.castle_moves(), vec![long_castle(0)]);
    // ten files: every square up to the rook must be free
    let mut wide = Board::new(10, 2);
    wide.put_piece_on_field_xy(king, (4, 0), 0);
    wide.put_piece_on_field_xy(rook, (9, 0), 0);
    let wide_castle = StepKind::Castle {
        king_step: Step::new((4, 0), (6, 0)),
        rook_step: Step::new((9, 0), (5, 0)),
    };
    assert_eq!(wide.castle_moves(), vec![wide_castle]);
    wide.put_piece_on_field_xy(rook, (8, 0), 3);
    assert_eq!(wide.castle_moves(), vec![]);
}

#[test]
fn check_is_seen_from_the_moves_of_the_other_side() {
    let board = board_of("b1kw\nb8qb\nh8kb");
    assert!(board.has_check(None));
    assert!(board.has_check(Some(PieceColor::White)));
    assert!(!board.has_check(Some(PieceColor::Black)));
    let shielded = board_of("b1kw\nb4pw\nb8qb\nh8kb");
    assert!(!shielded.has_check(None));
    let king_at = Location::new(1, 0);
    assert!(board.checked_by_steps(None, Some(vec![go((5, 5), (1, 0))])));
    assert!(!board.checked_by_steps(None, Some(vec![go((1, 0), (5, 5))])));
    assert!(!board.checked_by_steps(None, Some(vec![])));
    assert!(!board.checked_by_steps(
        None,
        Some(vec![StepKind::Castle {
            king_step: Step::new((4, 0), (1, 0)),
            rook_step: Step::new((7, 0), (1, 0)),
        }])
    ));
    assert!(board.checked_by_steps(
        Some(PieceColor::White),
        Some(vec![
            go((0, 0), (0, 1)),
            StepKind::Promote {
                step: Step::new((2, 1), (king_at.x, king_at.y)),
                piece: PieceKind::Queen
            }
        ])
    ));
    assert!(board.checked_by_steps(None, None));
    assert!(!board.checked_by_steps(Some(PieceColor::Black), None));
}

#[test]
fn check_must_be_answered() {
    // the queen gives check along the file; the king must leave it or the rook must block or take
    let board = board_of("b1kw\nb8qb\nh8kb\nh7rw");
    let steps = board.compute_steps();
    for step in steps.iter() {
        let mut after = board.clone();
        after.apply_step_kind(step).unwrap();
        assert!(!after.has_check(Some(PieceColor::White)), "{:?}", step);
    }
    assert!(steps.contains(&go((7, 6), (1, 6))));
    assert!(steps.contains(&go((1, 0), (0, 0))));
    assert!(!steps.contains(&go((1, 0), (1, 1))));
    assert!(!steps.contains(&go((7, 6), (7, 0))));
}

#[test]
fn no_legal_move_leaves_the_own_king_in_check() {
    let positions = [
        "e1kw\na1rw\nh1rw\ne8kb\ne5rb",
        "e1kw\nd1qw\ne8kb\nd8rb\nh4bb",
        "a1kw\na2rb\nb1rb",
        "e4kw\nd6nb\nf6nb\ne8kb\na7pw\nh2pw",
    ];
    for description in positions {
        let mut board = board_of(description);
        for _ in 0..2 {
            let mover = board.turn_color();
            let steps = board.compute_steps();
            for step in steps.iter() {
                let mut after = board.clone();
                assert_eq!(after.apply_step_kind(step), Ok(()));
                assert!(!after.has_check(Some(mover)), "{} {:?}", description, step);
                assert_eq!(after.turn_color(), mover.invert());
            }
            match steps.first() {
                Some(first) => board.apply_step_kind(first).unwrap(),
                None => break,
            }
        }
    }
    let mut board = Board::standard_board();
    let mover = board.turn_color();
    for step in board.compute_steps() {
        let mut after = board.clone();
        after.apply_step_kind(&step).unwrap();
        assert!(!after.has_check(Some(mover)));
    }
    board
        .apply_step_kind(&go((4, 1), (4, 3)))
        .unwrap();
    assert_eq!(board.compute_steps().len(), 20);
}

#[test]
fn pinned_piece_may_not_leave_the_line() {
    let board = board_of("e1kw\ne2rw\ne8rb\na8kb");
    let steps = board.compute_steps();
    let rook_steps: Vec<&StepKind> = steps
        .iter()
        .filter(|step| matches!(step, StepKind::GoTo(s) if s.from == Location::new(4, 1)))
        .collect();
    // e3 .. e7 and the capture on e8
    assert_eq!(rook_steps.len(), 6);
    assert!(steps.contains(&go((4, 1), (4, 7))));
    assert!(!steps.contains(&go((4, 1), (0, 1))));
}

#[test]
fn filter_check_steps_keeps_the_order() {
    let board = board_of("a1kw\na2rb\nb1rb");
    let mut steps = vec![
        go((0, 0), (1, 1)),
        go((0, 0), (1, 0)),
        go((0, 0), (0, 1)),
    ];
    board.filter_check_steps(&mut steps);
    assert_eq!(steps, vec![go((0, 0), (1, 0)), go((0, 0), (0, 1))]);
    let mut none: Vec<StepKind> = vec![];
    board.filter_check_steps(&mut none);
    assert_eq!(none, vec![]);
}

#[test]
fn evaluation_tells_mate_from_stalemate() {
    // stalemate: the black king has no square and is not attacked
    let mut stalemate = board_of("a8kb\nc6qw\nh1kw");
    pass_turn(&mut stalemate, (2, 5), (2, 6));
    let evaluation = stalemate.evaluate_basic();
    assert!(evaluation.possible_moves.is_empty());
    assert!(!evaluation.has_check);
    assert!(evaluation.has_stalemate);
    assert!(!evaluation.has_checkmate);

    // mate: the same king, attacked along the rank as well
    let mut mate = board_of("a8kb\nc7qw\nh1kw\nh7rw");
    pass_turn(&mut mate, (7, 6), (7, 7));
    let evaluation = mate.evaluate_basic();
    assert!(evaluation.possible_moves.is_empty());
    assert!(evaluation.has_check);
    assert!(evaluation.has_checkmate);
    assert!(!evaluation.has_stalemate);

    // check that can be answered
    let mut check = board_of("a8kb\nh1kw\nh7rw");
    pass_turn(&mut check, (7, 6), (7, 7));
    let evaluation = check.evaluate_basic();
    assert!(evaluation.has_check);
    assert!(!evaluation.has_checkmate);
    assert!(!evaluation.has_stalemate);
    assert_eq!(
        evaluation.possible_moves,
        vec![go((0, 7), (1, 6)), go((0, 7), (0, 6))]
    );

    let opening = Board::standard_board().evaluate_basic();
    assert!(!opening.has_check && !opening.has_checkmate && !opening.has_stalemate);
    assert_eq!(opening.possible_moves, Board::standard_board().compute_steps());
}

#[test]
fn lone_king_mirrors_under_colour_inversion() {
    let king = |color| ColoredPiece {
        kind: PieceKind::King,
        color,
    };
    for x in 0..8usize {
        for y in 0..8usize {
            let mut white = Board::new(8, 8);
            white.put_piece_on_field_xy(king(PieceColor::White), (x, y), 0);
            // a black king that arrives on the mirrored square with White's first move
            let arrives_from = if x == 0 { 1 } else { x - 1 };
            let mut black = Board::new(8, 8);
            black.put_piece_on_field_xy(king(PieceColor::Black), (arrives_from, 7 - y), 0);
            pass_turn(&mut black, (arrives_from, 7 - y), (x, 7 - y));
            assert_eq!(black.turn_color(), PieceColor::Black);

            let white_steps = white.compute_steps();
            let black_steps = black.compute_steps();
            assert_eq!(white_steps.len(), black_steps.len());
            let neighbours = (if x == 0 || x == 7 { 2 } else { 3 })
                * (if y == 0 || y == 7 { 2 } else { 3 })
                - 1;
            assert_eq!(white_steps.len(), neighbours);
            let mirrored: Vec<(usize, usize)> = {
                let mut all: Vec<(usize, usize)> = targets(&black_steps)
                    .into_iter()
                    .map(|(tx, ty)| (tx, 7 - ty))
                    .collect();
                all.sort();
                all
            };
            assert_eq!(targets(&white_steps), mirrored);
        }
    }
}
