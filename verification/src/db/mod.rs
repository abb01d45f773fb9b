//! The storage interface of the engine, its abstract state, and two
//! implementations: one that keeps everything in memory, and a handle for a
//! Cloudflare D1 binding whose operations are still to be written.

pub mod codec;
pub mod d1;
pub mod error;
pub mod interface;
pub mod ledger;
pub mod memory;

pub use d1::D1Database;
pub use error::{DbError, DbResult};
pub use interface::{Database, DatabaseMarker};
pub use ledger::Ledger;
pub use memory::MemoryDatabase;
