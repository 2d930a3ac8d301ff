use rustychess::models::error::ChessError;
use rustychess::models::location::Location;
use rustychess::models::piece::{ColoredPiece, PieceColor, PieceKind};
use rustychess::models::step::{Direction, Step, StepKind};

#[test]
fn location_round_trip_on_the_standard_board() {
    for x in 0..8 {
        for y in 0..8 {
            let location = Location::new(x, y);
            let text = location.encode();
            assert_eq!(text.chars().count(), 2);
            assert_eq!(Location::decode(&text), Ok(location));
        }
    }
}

#[test]
fn location_encode_writes_letter_and_rank() {
    assert_eq!(Location::new(7, 7).encode(), "h8");
    assert_eq!(Location::new(4, 3).encode(), "e4");
    assert_eq!(Location::new(25, 0).encode(), "z1");
    assert_eq!(Location::new(0, 9).encode(), "a10");
    assert_eq!(Location::new(2, 122).encode(), "c123");
}

#[test]
fn location_decode_reads_either_case_and_long_ranks() {
    assert_eq!(Location::decode("B5"), Ok(Location::new(1, 4)));
    assert_eq!(Location::decode("h8"), Ok(Location::new(7, 7)));
    assert_eq!(Location::decode("a10"), Ok(Location::new(0, 9)));
    assert_eq!(Location::decode("c007"), Ok(Location::new(2, 6)));
    assert_eq!(Location::decode("Z1"), Ok(Location::new(25, 0)));
}

#[test]
fn location_decode_rejects_what_is_no_square() {
    for text in ["", "a", "1", "a0", "1a", "aa", "a1x", "a-1", "a+1", "{1", "`1", "@1", "é1", " a1", "a 1"] {
        assert_eq!(
            Location::decode(text),
            Err(ChessError::InvalidLocation),
            "{:?}",
            text
        );
    }
    // a rank number that does not fit
    assert_eq!(
        Location::decode("a99999999999999999999999999999"),
        Err(ChessError::InvalidLocation)
    );
}

#[test]
fn piece_kind_letters() {
    let kinds = [
        (PieceKind::Pawn, "P", 'p'),
        (PieceKind::Bishop, "B", 'b'),
        (PieceKind::Knight, "N", 'n'),
        (PieceKind::Rook, "R", 'r'),
        (PieceKind::Queen, "Q", 'q'),
        (PieceKind::King, "K", 'k'),
    ];
    for (kind, upper, lower) in kinds {
        assert_eq!(kind.encode(), upper);
        assert_eq!(PieceKind::decode(lower), Ok(kind));
        assert_eq!(PieceKind::decode(upper.chars().next().unwrap()), Ok(kind));
    }
    assert_eq!(PieceKind::decode('x'), Err(ChessError::InvalidPieceKind('x')));
    assert_eq!(PieceKind::decode('X'), Err(ChessError::InvalidPieceKind('x')));
    assert_eq!(PieceKind::decode('1'), Err(ChessError::InvalidPieceKind('1')));
}

#[test]
fn piece_kind_symbols() {
    assert_eq!(PieceKind::Pawn.to_symbol(), "\u{f0859}");
    assert_eq!(PieceKind::Bishop.to_symbol(), "\u{f085c}");
    assert_eq!(PieceKind::Knight.to_symbol(), "\u{f0858}");
    assert_eq!(PieceKind::Rook.to_symbol(), "\u{f085b}");
    assert_eq!(PieceKind::Queen.to_symbol(), "\u{f085a}");
    assert_eq!(PieceKind::King.to_symbol(), "\u{f0857}");
}

#[test]
fn piece_color_letters_and_inversion() {
    assert_eq!(PieceColor::decode('w'), Ok(PieceColor::White));
    assert_eq!(PieceColor::decode('W'), Ok(PieceColor::White));
    assert_eq!(PieceColor::decode('b'), Ok(PieceColor::Black));
    assert_eq!(PieceColor::decode('B'), Ok(PieceColor::Black));
    assert_eq!(PieceColor::decode('x'), Err(ChessError::InvalidColor('x')));
    assert_eq!(PieceColor::decode('Q'), Err(ChessError::InvalidColor('q')));
    assert_eq!(PieceColor::White.invert(), PieceColor::Black);
    assert_eq!(PieceColor::Black.invert(), PieceColor::White);
    assert_eq!(PieceColor::White.invert().invert(), PieceColor::White);
}

#[test]
fn colored_symbol_is_wrapped_in_escape_sequences() {
    let white_king = ColoredPiece {
        kind: PieceKind::King,
        color: PieceColor::White,
    };
    let black_pawn = ColoredPiece {
        kind: PieceKind::Pawn,
        color: PieceColor::Black,
    };
    assert_eq!(white_king.to_colored_symbol(), "\u{1b}[33m\u{f0857}\u{1b}[0m");
    assert_eq!(black_pawn.to_colored_symbol(), "\u{1b}[31m\u{f0859}\u{1b}[0m");
    assert_ne!(white_king.to_colored_symbol(), white_king.kind.to_symbol());
    assert_eq!(PieceColor::White.ansi_color(), ansi_term::Colour::Yellow);
    assert_eq!(PieceColor::Black.ansi_color(), ansi_term::Colour::Red);
}

#[test]
fn step_new_and_encode() {
    let step = Step::new((4, 1), (4, 3));
    assert_eq!(step.from, Location::new(4, 1));
    assert_eq!(step.to, Location::new(4, 3));
    assert_eq!(step.encode(), "e2e4");
}

#[test]
fn direction_reverse() {
    let reversed = Direction(2, -1).reverse();
    assert_eq!(reversed, Direction(-2, 1));
    assert_eq!(Direction(0, 0).reverse(), Direction(0, 0));
}

#[test]
fn step_kind_encode() {
    let step = Step::new((4, 6), (4, 7));
    assert_eq!(StepKind::GoTo(step).encode(), "e7e8");
    assert_eq!(
        StepKind::Promote {
            step,
            piece: PieceKind::Queen
        }
        .encode(),
        "e7e8=Q"
    );
    assert_eq!(
        StepKind::Promote {
            step,
            piece: PieceKind::Knight
        }
        .encode(),
        "e7e8=N"
    );
    let long = StepKind::Castle {
        king_step: Step::new((4, 0), (2, 0)),
        rook_step: Step::new((0, 0), (3, 0)),
    };
    let short = StepKind::Castle {
        king_step: Step::new((4, 0), (6, 0)),
        rook_step: Step::new((7, 0), (5, 0)),
    };
    assert_eq!(long.encode(), "0-0-0");
    assert_eq!(short.encode(), "0-0");
}

#[test]
fn step_kind_round_trip_on_the_standard_board() {
    let kinds = [
        PieceKind::Pawn,
        PieceKind::Rook,
        PieceKind::Knight,
        PieceKind::Bishop,
        PieceKind::Queen,
        PieceKind::King,
    ];
    for from in 0..64usize {
        for to in 0..64usize {
            let step = Step::new((from % 8, from / 8), (to % 8, to / 8));
            for color in [PieceColor::White, PieceColor::Black] {
                let go = StepKind::GoTo(step);
                assert_eq!(StepKind::decode(&go.encode(), color), Ok(go));
            }
            if from % 7 == 0 {
                for piece in kinds {
                    let promote = StepKind::Promote { step, piece };
                    assert_eq!(
                        StepKind::decode(&promote.encode(), PieceColor::Black),
                        Ok(promote)
                    );
                }
            }
        }
    }
}

#[test]
fn step_kind_decode_castle_depends_on_the_side() {
    assert_eq!(
        StepKind::decode("O-O", PieceColor::White),
        Ok(StepKind::Castle {
            king_step: Step::new((4, 0), (6, 0)),
            rook_step: Step::new((7, 0), (5, 0)),
        })
    );
    assert_eq!(
        StepKind::decode("O-O", PieceColor::Black),
        Ok(StepKind::Castle {
            king_step: Step::new((4, 7), (6, 7)),
            rook_step: Step::new((7, 7), (5, 7)),
        })
    );
}

#[test]
fn step_kind_decode_errors() {
    let white = PieceColor::White;
    assert_eq!(StepKind::decode("", white), Err(ChessError::InvalidMoveFormat));
    assert_eq!(StepKind::decode("e2e", white), Err(ChessError::InvalidMoveFormat));
    assert_eq!(StepKind::decode("e2e4e5", white), Err(ChessError::InvalidMoveFormat));
    assert_eq!(StepKind::decode("O-O-O", white), Err(ChessError::InvalidMoveFormat));
    assert_eq!(StepKind::decode("0-0", white), Err(ChessError::InvalidMoveFormat));
    assert_eq!(StepKind::decode("e2?4", white), Err(ChessError::InvalidLocation));
    assert_eq!(StepKind::decode("e0e4", white), Err(ChessError::InvalidLocation));
    assert_eq!(StepKind::decode("e2=Q", white), Err(ChessError::InvalidLocation));
    assert_eq!(StepKind::decode("e7e8=", white), Err(ChessError::InvalidPromotion));
    assert_eq!(
        StepKind::decode("e7e8=X", white),
        Err(ChessError::InvalidPieceKind('x'))
    );
    assert_eq!(StepKind::decode("e7=Q", white), Err(ChessError::InvalidLocation));
    assert_eq!(StepKind::decode("e7e10=Q", white), Err(ChessError::InvalidLocation));
}

#[test]
fn step_kind_decode_reads_promotions() {
    let step = Step::new((4, 6), (4, 7));
    assert_eq!(
        StepKind::decode("e7e8=q", PieceColor::White),
        Ok(StepKind::Promote {
            step,
            piece: PieceKind::Queen
        })
    );
    // what follows the letter of the piece is not looked at
    assert_eq!(
        StepKind::decode("e7e8=R+", PieceColor::White),
        Ok(StepKind::Promote {
            step,
            piece: PieceKind::Rook
        })
    );
}

#[test]
fn step_kind_target() {
    let step = Step::new((1, 2), (3, 4));
    assert_eq!(StepKind::GoTo(step).target(), Some(Location::new(3, 4)));
    assert_eq!(
        StepKind::Promote {
            step,
            piece: PieceKind::Rook
        }
        .target(),
        Some(Location::new(3, 4))
    );
    assert_eq!(
        StepKind::Castle {
            king_step: step,
            rook_step: step
        }
        .target(),
        None
    );
}

#[test]
fn possible_promotions_lists_every_kind() {
    let step = Step::new((0, 6), (0, 7));
    let promotions = StepKind::possible_promotions(step);
    let kinds = [
        PieceKind::Pawn,
        PieceKind::Rook,
        PieceKind::Knight,
        PieceKind::Bishop,
        PieceKind::Queen,
        PieceKind::King,
    ];
    assert_eq!(promotions.len(), 6);
    for (promotion, piece) in promotions.iter().zip(kinds) {
        assert_eq!(*promotion, StepKind::Promote { step, piece });
    }
}

#[test]
fn error_messages() {
    assert_eq!(ChessError::InvalidMoveFormat.message(), "Invalid move format");
    assert_eq!(ChessError::InvalidPromotion.message(), "Invalid promotion");
    assert_eq!(ChessError::InvalidColor('x').message(), "Invalid color!");
    assert_eq!(
        ChessError::InvalidPieceKind('x').message(),
        "failed decoding piece char"
    );
    assert_eq!(
        ChessError::EmptyField(Location::new(0, 0)).message(),
        "Empty or non-existent field"
    );
    assert_eq!(
        ChessError::MissingKing(PieceColor::White).message(),
        "No king on the board"
    );
    assert_eq!(ChessError::GameInProgress.message(), "End this game first");
    assert_eq!(
        ChessError::IllegalMove {
            attempted: StepKind::GoTo(Step::new((0, 0), (0, 1))),
            legal: vec![]
        }
        .message(),
        "illegal move!"
    );
}
