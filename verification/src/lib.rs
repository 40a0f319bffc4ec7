//! A bingo-style number lottery: the log of drawn numbers, the draw engine
//! that samples new numbers without replacement, the ledger of win claims,
//! and the rules that gate who may draw and who may claim.

pub mod board;
pub mod engine;
pub mod gate;
pub mod ledger;
pub mod notify;
pub mod pool;
pub mod store;
pub mod text;
