//! The service layer: each operation of the game, sequenced over a store.

pub mod bets;
pub mod consistency;
pub mod engine;
pub mod guarantees;
pub mod invite;
pub mod markets;
pub mod plans;

pub use engine::CazinoService;
pub use plans::CreateMarketParams;
