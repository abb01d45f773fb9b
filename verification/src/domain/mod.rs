//! The value types of the engine and the pure rules over them.

pub mod conservation;
pub mod models;
pub mod odds;
pub mod parimutuel;
pub mod rules;
