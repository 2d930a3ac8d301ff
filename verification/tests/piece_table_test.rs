use rustychess::models::piece::{ColoredPiece, MoveCapability, PieceColor, PieceKind, UNBOUNDED};
use rustychess::models::step::Direction;

fn caps(kind: PieceKind, color: PieceColor) -> Vec<MoveCapability> {
    ColoredPiece { kind, color }.piece_move_capabilities()
}

fn free(x: isize, y: isize, distance: i16) -> MoveCapability {
    MoveCapability {
        direction: Direction(x, y),
        distance,
        must_take: false,
        can_take: true,
    }
}

#[test]
fn pawn_capabilities_follow_the_colour() {
    for (color, forward) in [(PieceColor::White, 1), (PieceColor::Black, -1)] {
        let table = caps(PieceKind::Pawn, color);
        assert_eq!(
            table,
            vec![
                MoveCapability {
                    direction: Direction(0, forward),
                    distance: 2,
                    must_take: false,
                    can_take: false,
                },
                MoveCapability {
                    direction: Direction(1, forward),
                    distance: 1,
                    must_take: true,
                    can_take: true,
                },
                MoveCapability {
                    direction: Direction(-1, forward),
                    distance: 1,
                    must_take: true,
                    can_take: true,
                },
            ]
        );
    }
}

#[test]
fn sliding_pieces() {
    let straight = vec![
        free(0, 1, UNBOUNDED),
        free(0, -1, UNBOUNDED),
        free(1, 0, UNBOUNDED),
        free(-1, 0, UNBOUNDED),
    ];
    let diagonal = vec![
        free(1, 1, UNBOUNDED),
        free(1, -1, UNBOUNDED),
        free(-1, 1, UNBOUNDED),
        free(-1, -1, UNBOUNDED),
    ];
    let mut both = diagonal.clone();
    both.extend(straight.iter().cloned());
    for color in [PieceColor::White, PieceColor::Black] {
        assert_eq!(caps(PieceKind::Rook, color), straight);
        assert_eq!(caps(PieceKind::Bishop, color), diagonal);
        assert_eq!(caps(PieceKind::Queen, color), both);
    }
    assert_eq!(UNBOUNDED, -1);
}

#[test]
fn stepping_pieces() {
    let king = vec![
        free(1, 1, 1),
        free(1, -1, 1),
        free(-1, 1, 1),
        free(-1, -1, 1),
        free(0, 1, 1),
        free(0, -1, 1),
        free(1, 0, 1),
        free(-1, 0, 1),
    ];
    let knight = vec![
        free(1, 2, 1),
        free(1, -2, 1),
        free(-1, 2, 1),
        free(-1, -2, 1),
        free(2, 1, 1),
        free(2, -1, 1),
        free(-2, 1, 1),
        free(-2, -1, 1),
    ];
    for color in [PieceColor::White, PieceColor::Black] {
        assert_eq!(caps(PieceKind::King, color), king);
        assert_eq!(caps(PieceKind::Knight, color), knight);
    }
}
