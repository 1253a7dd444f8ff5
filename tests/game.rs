use chess_attacks::bitboard::{Bitboard, Bitboardable};
use chess_attacks::color_side::{BLACK, WHITE};
use chess_attacks::game::Game;
use chess_attacks::piece::{Piece, Pieceable, BISHOP, KING, KNIGHT, PAWN, QUEEN, ROOK};
use chess_attacks::position::{Position, Positionable};
use chess_attacks::square::{A1, D1, E1, E4, E8, H8};

#[test]
fn default_game_is_the_start() {
    let game = Game::default();
    assert_eq!(game.played_moves, 0);
    let p = game.position;
    assert_eq!(p.from_square(E1), Some(Piece::new(KING, WHITE)));
    assert_eq!(p.from_square(E8), Some(Piece::new(KING, BLACK)));
    assert_eq!(p.from_square(D1), Some(Piece::new(QUEEN, WHITE)));
    assert_eq!(p.from_square(A1), Some(Piece::new(ROOK, WHITE)));
    assert_eq!(p.from_square(H8), Some(Piece::new(ROOK, BLACK)));
    assert_eq!(p.from_square(E4), None);
    assert_eq!(p.from_square(9), Some(Piece::new(PAWN, WHITE)));
    assert_eq!(p.from_square(57), Some(Piece::new(KNIGHT, BLACK)));
    assert_eq!(p.from_square(61), Some(Piece::new(BISHOP, BLACK)));
    assert_eq!(p, Position::initial());
}

#[test]
fn position_views() {
    let p = Position::initial();
    assert_eq!(p.from_piece_color(WHITE), Bitboard::initial_from_piece_color(WHITE));
    assert_eq!(p.from_piece_color(BLACK), Bitboard::initial_from_piece_color(BLACK));
    assert_eq!(p.from_piece_kind(KNIGHT), Bitboard::initial_from_piece_kind(KNIGHT));
    assert_eq!(
        p.from_piece(Piece::new(ROOK, BLACK)),
        Bitboard::from_squares(vec![56, 63])
    );
    assert_eq!(
        p.from_piece(Piece::new(QUEEN, WHITE)),
        Bitboard::from_squares(vec![D1])
    );
}

#[test]
fn first_kind_wins_on_a_doubly_held_square() {
    let mut p: Position = [0; 8];
    p[2].set(E4, true);
    p[4].set(E4, true);
    p[7].set(E4, true);
    assert_eq!(p.from_square(E4), Some(Piece::new(ROOK, BLACK)));
}

#[test]
fn game_text_of_the_start() {
    let text = Game::default().to_string();
    let lines: Vec<&str> = text.lines().collect();
    assert_eq!(lines[0], "");
    assert_eq!(lines[1], " +---+---+---+---+---+---+---+---+");
    assert_eq!(lines[2], " | ♖ | ♘ | ♗ | ♕ | ♔ | ♗ | ♘ | ♖ |");
    assert_eq!(lines[4], " | ♙ | ♙ | ♙ | ♙ | ♙ | ♙ | ♙ | ♙ |");
    assert_eq!(lines[6], " |   |   |   |   |   |   |   |   |");
    assert_eq!(lines[14], " | ♟ | ♟ | ♟ | ♟ | ♟ | ♟ | ♟ | ♟ |");
    assert_eq!(lines[16], " | ♜ | ♞ | ♝ | ♛ | ♚ | ♝ | ♞ | ♜ |");
    assert_eq!(lines[17], " +---+---+---+---+---+---+---+---+");
    assert_eq!(lines[18], " 0 Moves played");
    assert_eq!(lines.len(), 19);
}

#[test]
fn game_text_counts_moves() {
    let game = Game { position: [0; 8], played_moves: 1207 };
    assert!(game.to_string().ends_with("---+\n 1207 Moves played"));
    let game = Game { position: [0; 8], played_moves: 10 };
    assert!(game.to_string().ends_with(" 10 Moves played"));
    let game = Game { position: [0; 8], played_moves: usize::MAX };
    assert!(game.to_string().ends_with(&format!(" {} Moves played", usize::MAX)));
}
