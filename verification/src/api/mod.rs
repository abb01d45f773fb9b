//! The plain values that pass the boundary of the engine: what a front end
//! sends in, what it gets back, and what it tells the other participants.

pub mod leaderboard;
pub mod models;
pub mod routes;
