use chess_attacks::bitboard::{Bitboard, Bitboardable};
use chess_attacks::color_side::{BLACK, WHITE};
use chess_attacks::piece::{BISHOP, KING, KNIGHT, PAWN, QUEEN, ROOK};
use chess_attacks::square::{A1, B1, D1, E1, E4, G1, H1, H8};

#[test]
fn at_fn() {
    let b1: Bitboard = 0b1101010111010101110101011101010111010101110101011101010111010101;
    let b2: Bitboard = 0b1010101110101011101010111010101110101011101010111010101110101011;
    assert_eq!(b1.at(H1), true);
    assert_eq!(b1.at(H1), true);
    assert_eq!(b2.at(B1), false);
    assert_eq!(b2.at(G1), true);
}

#[test]
fn set_fn() {
    let mut b1: Bitboard = 0b0000000000000000000000000000000000000000000000000000000000000000;
    b1.set(A1, true);
    assert_eq!(b1.at(A1), true);
    b1.set(A1, false);
    assert_eq!(b1.at(A1), false);
    let mut b2: Bitboard = 0b1111111111111111111111111111111111111111111111111111111111111111;
    b2.set(H8, true);
    assert_eq!(b2.at(H8), true);
    b2.set(A1, false);
    assert_eq!(b2.at(A1), false);
}

#[test]
fn square_zero_is_the_top_bit() {
    let mut b: Bitboard = Bitboard::new();
    assert_eq!(b, 0);
    b.set(A1, true);
    assert_eq!(b, 1u64 << 63);
    b.set(H8, true);
    assert_eq!(b, (1u64 << 63) | 1);
}

#[test]
fn set_leaves_other_squares() {
    let mut b: Bitboard = Bitboard::new();
    b.set(E4, true);
    for s in 0u8..64 {
        assert_eq!(b.at(s), s == E4);
    }
    b.set(E4, true);
    assert_eq!(b, 1u64 << (63 - E4));
}

#[test]
fn from_squares_with_duplicates() {
    let b = Bitboard::from_squares(vec![A1, E4, A1, H8]);
    for s in 0u8..64 {
        assert_eq!(b.at(s), s == A1 || s == E4 || s == H8);
    }
    assert_eq!(Bitboard::from_squares(vec![]), 0);
}

#[test]
fn initial_boards() {
    assert_eq!(
        Bitboard::initial_from_piece_kind(PAWN),
        0b00000000_11111111_00000000_00000000_00000000_00000000_11111111_00000000
    );
    assert_eq!(
        Bitboard::initial_from_piece_kind(KING),
        Bitboard::from_squares(vec![E1, 60])
    );
    assert_eq!(
        Bitboard::initial_from_piece_kind(QUEEN),
        Bitboard::from_squares(vec![D1, 59])
    );
    assert_eq!(
        Bitboard::initial_from_piece_kind(ROOK),
        Bitboard::from_squares(vec![0, 7, 56, 63])
    );
    assert_eq!(
        Bitboard::initial_from_piece_kind(KNIGHT),
        Bitboard::from_squares(vec![1, 6, 57, 62])
    );
    assert_eq!(
        Bitboard::initial_from_piece_kind(BISHOP),
        Bitboard::from_squares(vec![2, 5, 58, 61])
    );
    assert_eq!(Bitboard::initial_from_piece_kind(6), 0);
    assert_eq!(
        Bitboard::initial_from_piece_color(WHITE),
        Bitboard::from_squares((0u8..16).collect())
    );
    assert_eq!(
        Bitboard::initial_from_piece_color(BLACK),
        Bitboard::from_squares((48u8..64).collect())
    );
    assert_eq!(Bitboard::initial_from_piece_color(3), 0);
}

fn expected_grid(marked: &[u8]) -> String {
    let line = " +---+---+---+---+---+---+---+---+\n";
    let mut out = format!("\n{}", line);
    for r in (0u8..8).rev() {
        for f in 0u8..8 {
            out.push_str(" | ");
            out.push_str(if marked.contains(&(r * 8 + f)) { "X" } else { " " });
        }
        out.push_str(" |\n");
        out.push_str(line);
    }
    out
}

#[test]
fn draw_marks_each_square() {
    let b = Bitboard::from_squares(vec![A1, E4, H8]);
    let text = b.draw();
    assert_eq!(text, expected_grid(&[A1, E4, H8]));
    let first_row = text.lines().nth(2).unwrap();
    assert_eq!(first_row, " |   |   |   |   |   |   |   | X |");
    let last_row = text.lines().nth(16).unwrap();
    assert_eq!(last_row, " | X |   |   |   |   |   |   |   |");
    assert_eq!(Bitboard::new().draw(), expected_grid(&[]));
}
