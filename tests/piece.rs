use chess_attacks::color_side::{BLACK, WHITE};
use chess_attacks::piece::{Piece, Pieceable, BISHOP, KING, KNIGHT, PAWN, QUEEN, ROOK};

#[test]
fn test_new() {
    let p1 = Piece::new(QUEEN, WHITE);
    let p2 = Piece::new(PAWN, BLACK);
    assert_eq!(p1, 0b1011);
    assert_eq!(p2, 0b0000);
}

#[test]
fn test_color() {
    let p1 = Piece::new(QUEEN, WHITE);
    let p2 = Piece::new(PAWN, BLACK);
    assert_eq!(p1.color(), WHITE);
    assert_eq!(p2.color(), BLACK);
}

#[test]
fn test_kind() {
    let p1 = Piece::new(QUEEN, WHITE);
    let p2 = Piece::new(PAWN, BLACK);
    assert_eq!(p1.kind(), QUEEN);
    assert_eq!(p2.kind(), PAWN);
}

#[test]
fn symbols_of_both_sides() {
    assert_eq!(Piece::new(KING, WHITE).to_char(), '♚');
    assert_eq!(Piece::new(QUEEN, WHITE).to_char(), '♛');
    assert_eq!(Piece::new(ROOK, WHITE).to_char(), '♜');
    assert_eq!(Piece::new(BISHOP, WHITE).to_char(), '♝');
    assert_eq!(Piece::new(KNIGHT, WHITE).to_char(), '♞');
    assert_eq!(Piece::new(PAWN, WHITE).to_char(), '♟');
    assert_eq!(Piece::new(KING, BLACK).to_char(), '♔');
    assert_eq!(Piece::new(QUEEN, BLACK).to_char(), '♕');
    assert_eq!(Piece::new(ROOK, BLACK).to_char(), '♖');
    assert_eq!(Piece::new(BISHOP, BLACK).to_char(), '♗');
    assert_eq!(Piece::new(KNIGHT, BLACK).to_char(), '♘');
    assert_eq!(Piece::new(PAWN, BLACK).to_char(), '♙');
    let no_kind: Piece = 0b1110;
    assert_eq!(no_kind.to_char(), ' ');
}
