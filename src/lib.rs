pub mod attacks;
pub mod bits;
pub mod board;
pub mod clock;
pub mod eval;
pub mod fen;
pub mod makemove;
pub mod movegen;
pub mod movelist;
pub mod pawn_hash;
pub mod perft;
pub mod score;
pub mod search;
pub mod see;
pub mod time;
pub mod tt;
pub mod types;
pub mod uci;
pub mod zobrist;
