//! Attack generation for chess positions held as bitboards.
//!
//! A square is an index `0..64` (`file = index % 8`, `rank = index / 8`), a
//! bitboard is a `u64` whose most significant bit stands for square 0, and a
//! position is eight bitboards: one per piece kind, then one per colour.
pub mod attacks;
pub mod bitboard;
pub mod color_side;
pub mod dir;
pub mod game;
pub mod piece;
pub mod position;
pub mod square;
