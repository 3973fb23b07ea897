use chess_board::pieces::{Piece, PieceColor, PieceKind};
use chess_board::rules::{distance, is_between, is_occupied, is_occupied_by, is_path_empty};

fn piece(color: PieceColor, kind: PieceKind, x: u8, y: u8) -> Piece {
    Piece { color, kind, x, y }
}

fn white(kind: PieceKind, x: u8, y: u8) -> Piece {
    piece(PieceColor::White, kind, x, y)
}

fn black(kind: PieceKind, x: u8, y: u8) -> Piece {
    piece(PieceColor::Black, kind, x, y)
}

const KINDS: [PieceKind; 6] = [
    PieceKind::King,
    PieceKind::Queen,
    PieceKind::Bishop,
    PieceKind::Knight,
    PieceKind::Rook,
    PieceKind::Pawn,
];

#[test]
fn distance_is_symmetric_and_exact() {
    assert_eq!(distance(2, 7), 5);
    assert_eq!(distance(7, 2), 5);
    assert_eq!(distance(4, 4), 0);
    assert_eq!(distance(0, 255), 255);
}

#[test]
fn between_on_a_column() {
    assert!(is_between((0, 0), (0, 5), (0, 3)));
    assert!(is_between((0, 5), (0, 0), (0, 3)));
    assert!(!is_between((0, 0), (0, 5), (0, 0)));
    assert!(!is_between((0, 0), (0, 5), (0, 5)));
    assert!(!is_between((0, 0), (0, 5), (0, 6)));
    assert!(!is_between((0, 0), (0, 5), (1, 3)));
}

#[test]
fn between_on_a_row() {
    assert!(is_between((1, 4), (6, 4), (2, 4)));
    assert!(is_between((6, 4), (1, 4), (5, 4)));
    assert!(!is_between((1, 4), (6, 4), (1, 4)));
    assert!(!is_between((1, 4), (6, 4), (3, 5)));
}

#[test]
fn between_on_a_diagonal() {
    assert!(is_between((0, 0), (4, 4), (2, 2)));
    assert!(is_between((4, 4), (0, 0), (1, 1)));
    assert!(is_between((0, 7), (7, 0), (3, 4)));
    assert!(is_between((7, 0), (0, 7), (6, 1)));
    assert!(!is_between((0, 0), (4, 4), (2, 3)));
    assert!(!is_between((0, 0), (4, 4), (4, 4)));
    assert!(!is_between((0, 7), (7, 0), (3, 3)));
}

#[test]
fn nothing_is_between_squares_that_no_line_joins() {
    for x in 0..8 {
        for y in 0..8 {
            assert!(!is_between((0, 0), (1, 2), (x, y)));
            assert!(!is_between((3, 3), (3, 3), (x, y)));
        }
    }
}

#[test]
fn occupancy_sees_every_piece() {
    let pieces = vec![white(PieceKind::Rook, 0, 0), black(PieceKind::Pawn, 0, 0)];
    assert!(is_occupied(&pieces, (0, 0)));
    assert!(!is_occupied(&pieces, (0, 1)));
    assert!(is_occupied_by(&pieces, (0, 0), PieceColor::White));
    assert!(is_occupied_by(&pieces, (0, 0), PieceColor::Black));
    assert!(!is_occupied_by(&pieces, (1, 0), PieceColor::Black));
    assert!(!is_occupied(&Vec::new(), (0, 0)));
}

#[test]
fn path_is_empty_without_pieces_in_between() {
    let pieces = vec![white(PieceKind::Rook, 0, 0), black(PieceKind::Pawn, 0, 5)];
    assert!(is_path_empty((0, 0), (0, 5), &pieces));
    let blocked = vec![
        white(PieceKind::Rook, 0, 0),
        black(PieceKind::Pawn, 0, 3),
        black(PieceKind::Pawn, 0, 5),
    ];
    assert!(!is_path_empty((0, 0), (0, 5), &blocked));
    assert!(is_path_empty((0, 0), (0, 3), &blocked));
    assert!(is_path_empty((0, 0), (1, 2), &blocked));
}

#[test]
fn no_piece_moves_to_its_own_square() {
    for kind in KINDS {
        for color in [PieceColor::White, PieceColor::Black] {
            for x in 0..8 {
                for y in 0..8 {
                    let mover = piece(color, kind, x, y);
                    assert!(!mover.is_move_valid((x, y), &vec![mover]));
                    assert!(!mover.is_move_valid((x, y), &Vec::new()));
                }
            }
        }
    }
}

#[test]
fn no_piece_lands_on_its_own_colour() {
    let targets: [(PieceKind, (u8, u8)); 6] = [
        (PieceKind::King, (4, 4)),
        (PieceKind::Queen, (3, 6)),
        (PieceKind::Bishop, (5, 5)),
        (PieceKind::Knight, (5, 4)),
        (PieceKind::Rook, (3, 0)),
        (PieceKind::Pawn, (4, 3)),
    ];
    for (kind, target) in targets {
        let mover = white(kind, 3, 3);
        let free = vec![mover];
        assert!(mover.is_move_valid(target, &free));
        let friend = vec![mover, white(PieceKind::Pawn, target.0, target.1)];
        assert!(!mover.is_move_valid(target, &friend));
    }
    let pawn = white(PieceKind::Pawn, 3, 3);
    let friend = vec![pawn, white(PieceKind::Knight, 4, 4)];
    assert!(!pawn.is_move_valid((4, 4), &friend));
}

#[test]
fn targets_off_the_board_are_invalid() {
    for kind in KINDS {
        let mover = white(kind, 7, 7);
        for target in [(8, 7), (7, 8), (8, 8), (255, 255), (8, 6), (9, 7)] {
            assert!(!mover.is_move_valid(target, &vec![mover]));
        }
    }
}

#[test]
fn pieces_off_the_board_do_not_move() {
    for kind in KINDS {
        let mover = white(kind, 8, 0);
        for x in 0..8 {
            for y in 0..8 {
                assert!(!mover.is_move_valid((x, y), &vec![mover]));
            }
        }
    }
}

#[test]
fn king_moves_one_square_in_any_direction() {
    let king = white(PieceKind::King, 3, 3);
    let pieces = vec![king];
    for x in 0..8u8 {
        for y in 0..8u8 {
            let near = distance(x, 3) <= 1 && distance(y, 3) <= 1 && (x, y) != (3, 3);
            assert_eq!(king.is_move_valid((x, y), &pieces), near);
        }
    }
}

#[test]
fn king_captures_the_other_colour() {
    let king = white(PieceKind::King, 0, 4);
    let pieces = vec![king, black(PieceKind::Pawn, 1, 4)];
    assert!(king.is_move_valid((1, 4), &pieces));
}

#[test]
fn knight_moves_in_its_eight_jumps() {
    let knight = black(PieceKind::Knight, 4, 4);
    let pieces = vec![knight];
    let jumps = [(6, 5), (6, 3), (2, 5), (2, 3), (5, 6), (5, 2), (3, 6), (3, 2)];
    for x in 0..8u8 {
        for y in 0..8u8 {
            assert_eq!(knight.is_move_valid((x, y), &pieces), jumps.contains(&(x, y)));
        }
    }
}

#[test]
fn knight_jumps_over_pieces() {
    let knight = black(PieceKind::Knight, 7, 1);
    let alone = vec![knight];
    assert!(knight.is_move_valid((5, 2), &alone));
    let crowded = vec![
        knight,
        black(PieceKind::Pawn, 6, 1),
        black(PieceKind::Pawn, 6, 2),
        white(PieceKind::Pawn, 6, 0),
        white(PieceKind::Rook, 5, 1),
    ];
    assert!(knight.is_move_valid((5, 2), &crowded));
    assert!(knight.is_move_valid((5, 0), &crowded));
}

#[test]
fn knight_answer_depends_only_on_the_target() {
    let knight = white(PieceKind::Knight, 3, 3);
    let target = (5, 4);
    for x in 0..8u8 {
        for y in 0..8u8 {
            if (x, y) == target {
                continue;
            }
            for color in [PieceColor::White, PieceColor::Black] {
                let pieces = vec![knight, piece(color, PieceKind::Pawn, x, y)];
                assert!(knight.is_move_valid(target, &pieces));
            }
        }
    }
    assert!(knight.is_move_valid(target, &vec![knight, black(PieceKind::Pawn, 5, 4)]));
    assert!(!knight.is_move_valid(target, &vec![knight, white(PieceKind::Pawn, 5, 4)]));
}

#[test]
fn rook_moves_along_rows_and_columns() {
    let rook = white(PieceKind::Rook, 2, 5);
    let pieces = vec![rook];
    for x in 0..8u8 {
        for y in 0..8u8 {
            let on_line = (x == 2) != (y == 5);
            assert_eq!(rook.is_move_valid((x, y), &pieces), on_line);
        }
    }
}

#[test]
fn rook_is_stopped_by_a_piece_in_its_way() {
    let rook = white(PieceKind::Rook, 0, 0);
    let pieces = vec![rook, black(PieceKind::Pawn, 0, 3)];
    assert!(!rook.is_move_valid((0, 5), &pieces));
    assert!(!rook.is_move_valid((0, 4), &pieces));
    assert!(rook.is_move_valid((0, 3), &pieces));
    assert!(rook.is_move_valid((0, 2), &pieces));
    assert!(rook.is_move_valid((5, 0), &pieces));
    let own = vec![rook, white(PieceKind::Pawn, 0, 3)];
    assert!(!rook.is_move_valid((0, 5), &own));
    assert!(!rook.is_move_valid((0, 3), &own));
}

#[test]
fn rook_is_stopped_on_every_square_of_its_way() {
    let rook = white(PieceKind::Rook, 4, 0);
    for y in 1..7u8 {
        for color in [PieceColor::White, PieceColor::Black] {
            let pieces = vec![rook, piece(color, PieceKind::Knight, 4, y)];
            assert!(!rook.is_move_valid((4, 7), &pieces));
        }
    }
    assert!(rook.is_move_valid((4, 7), &vec![rook]));
}

#[test]
fn bishop_moves_along_diagonals() {
    let bishop = black(PieceKind::Bishop, 3, 4);
    let pieces = vec![bishop];
    for x in 0..8u8 {
        for y in 0..8u8 {
            let diagonal = distance(x, 3) == distance(y, 4) && (x, y) != (3, 4);
            assert_eq!(bishop.is_move_valid((x, y), &pieces), diagonal);
        }
    }
}

#[test]
fn bishop_is_stopped_by_a_piece_in_its_way() {
    let bishop = white(PieceKind::Bishop, 0, 2);
    let pieces = vec![bishop, white(PieceKind::Pawn, 1, 3)];
    assert!(!bishop.is_move_valid((2, 4), &pieces));
    assert!(!bishop.is_move_valid((5, 7), &pieces));
    assert!(bishop.is_move_valid((2, 0), &pieces));
    let far = vec![bishop, black(PieceKind::Pawn, 4, 6)];
    assert!(bishop.is_move_valid((3, 5), &far));
    assert!(bishop.is_move_valid((4, 6), &far));
    assert!(!bishop.is_move_valid((5, 7), &far));
}

#[test]
fn bishop_is_not_stopped_by_pieces_beside_its_way() {
    let bishop = white(PieceKind::Bishop, 0, 0);
    let pieces = vec![bishop, black(PieceKind::Pawn, 1, 2), black(PieceKind::Pawn, 2, 1)];
    assert!(bishop.is_move_valid((3, 3), &pieces));
}

#[test]
fn queen_moves_like_rook_and_bishop() {
    let queen = white(PieceKind::Queen, 3, 3);
    let pieces = vec![queen];
    for x in 0..8u8 {
        for y in 0..8u8 {
            let on_line = (x == 3) != (y == 3);
            let diagonal = distance(x, 3) == distance(y, 3) && (x, y) != (3, 3);
            assert_eq!(queen.is_move_valid((x, y), &pieces), on_line || diagonal);
        }
    }
}

#[test]
fn queen_is_stopped_by_a_piece_in_its_way() {
    let queen = white(PieceKind::Queen, 0, 3);
    let pieces = vec![queen, black(PieceKind::Pawn, 0, 5), black(PieceKind::Pawn, 2, 5)];
    assert!(queen.is_move_valid((0, 5), &pieces));
    assert!(!queen.is_move_valid((0, 6), &pieces));
    assert!(queen.is_move_valid((2, 5), &pieces));
    assert!(!queen.is_move_valid((3, 6), &pieces));
    assert!(queen.is_move_valid((3, 0), &pieces));
}

#[test]
fn white_pawn_steps_forward() {
    let pawn = white(PieceKind::Pawn, 1, 0);
    let pieces = vec![pawn];
    assert!(pawn.is_move_valid((2, 0), &pieces));
    assert!(pawn.is_move_valid((3, 0), &pieces));
    assert!(!pawn.is_move_valid((4, 0), &pieces));
    assert!(!pawn.is_move_valid((0, 0), &pieces));
    assert!(!pawn.is_move_valid((1, 1), &pieces));
    assert!(!pawn.is_move_valid((1, 2), &pieces));
    assert!(!pawn.is_move_valid((2, 1), &pieces));
}

#[test]
fn black_pawn_steps_forward() {
    let pawn = black(PieceKind::Pawn, 6, 3);
    let pieces = vec![pawn];
    assert!(pawn.is_move_valid((5, 3), &pieces));
    assert!(pawn.is_move_valid((4, 3), &pieces));
    assert!(!pawn.is_move_valid((3, 3), &pieces));
    assert!(!pawn.is_move_valid((7, 3), &pieces));
    assert!(!pawn.is_move_valid((5, 2), &pieces));
    assert!(!pawn.is_move_valid((5, 4), &pieces));
}

#[test]
fn pawn_steps_two_only_from_its_starting_row() {
    for x in 0..6u8 {
        let pawn = white(PieceKind::Pawn, x, 4);
        assert_eq!(pawn.is_move_valid((x + 2, 4), &vec![pawn]), x == 1);
    }
    for x in 2..8u8 {
        let pawn = black(PieceKind::Pawn, x, 4);
        assert_eq!(pawn.is_move_valid((x - 2, 4), &vec![pawn]), x == 6);
    }
}

#[test]
fn pawn_steps_two_only_over_empty_squares() {
    let pawn = white(PieceKind::Pawn, 1, 0);
    for color in [PieceColor::White, PieceColor::Black] {
        let ahead = vec![pawn, piece(color, PieceKind::Knight, 2, 0)];
        assert!(!pawn.is_move_valid((3, 0), &ahead));
        let on_target = vec![pawn, piece(color, PieceKind::Knight, 3, 0)];
        assert!(!pawn.is_move_valid((3, 0), &on_target));
        assert!(pawn.is_move_valid((2, 0), &on_target));
    }
    let pawn = black(PieceKind::Pawn, 6, 7);
    let ahead = vec![pawn, white(PieceKind::Knight, 5, 7)];
    assert!(!pawn.is_move_valid((4, 7), &ahead));
    let beside = vec![pawn, white(PieceKind::Knight, 5, 6), white(PieceKind::Knight, 4, 6)];
    assert!(pawn.is_move_valid((4, 7), &beside));
}

#[test]
fn pawn_does_not_step_onto_a_piece() {
    let pawn = white(PieceKind::Pawn, 3, 3);
    assert!(pawn.is_move_valid((4, 3), &vec![pawn]));
    assert!(!pawn.is_move_valid((4, 3), &vec![pawn, black(PieceKind::Pawn, 4, 3)]));
    assert!(!pawn.is_move_valid((4, 3), &vec![pawn, white(PieceKind::Pawn, 4, 3)]));
}

#[test]
fn pawn_moves_diagonally_only_to_capture() {
    let pawn = white(PieceKind::Pawn, 3, 3);
    assert!(!pawn.is_move_valid((4, 4), &vec![pawn]));
    assert!(!pawn.is_move_valid((4, 2), &vec![pawn]));
    assert!(pawn.is_move_valid((4, 4), &vec![pawn, black(PieceKind::Rook, 4, 4)]));
    assert!(pawn.is_move_valid((4, 2), &vec![pawn, black(PieceKind::Rook, 4, 2)]));
    assert!(!pawn.is_move_valid((4, 4), &vec![pawn, white(PieceKind::Rook, 4, 4)]));
    assert!(!pawn.is_move_valid((2, 4), &vec![pawn, black(PieceKind::Rook, 2, 4)]));
    assert!(!pawn.is_move_valid((4, 5), &vec![pawn, black(PieceKind::Rook, 4, 5)]));
    let pawn = black(PieceKind::Pawn, 4, 4);
    assert!(pawn.is_move_valid((3, 3), &vec![pawn, white(PieceKind::Rook, 3, 3)]));
    assert!(pawn.is_move_valid((3, 5), &vec![pawn, white(PieceKind::Rook, 3, 5)]));
    assert!(!pawn.is_move_valid((3, 5), &vec![pawn]));
    assert!(!pawn.is_move_valid((5, 5), &vec![pawn, white(PieceKind::Rook, 5, 5)]));
}

#[test]
fn pawn_on_the_last_row_has_no_move() {
    let pawn = white(PieceKind::Pawn, 7, 2);
    let pieces = vec![pawn, black(PieceKind::Rook, 7, 3)];
    for x in 0..8u8 {
        for y in 0..8u8 {
            assert!(!pawn.is_move_valid((x, y), &pieces));
        }
    }
}

#[test]
fn colours_are_opposite_to_each_other() {
    assert_eq!(PieceColor::White.opposite(), PieceColor::Black);
    assert_eq!(PieceColor::Black.opposite(), PieceColor::White);
    assert_eq!(PieceColor::White.pawn_row(), 1);
    assert_eq!(PieceColor::Black.pawn_row(), 6);
}

#[test]
fn moved_piece_keeps_colour_and_kind() {
    let queen = black(PieceKind::Queen, 7, 3);
    assert_eq!(queen.moved_to((2, 5)), black(PieceKind::Queen, 2, 5));
}
