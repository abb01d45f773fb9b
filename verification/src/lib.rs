//! A parimutuel betting engine for short-lived prediction markets among a
//! small group of participants.
//!
//! An admin opens a market, participants join with a device identifier,
//! bets are proposed about individual participants, everybody but the
//! subject wagers virtual coins on YES or NO, and the combined pool is split
//! among the winners when the bet is resolved.
//!
//! Identifiers are 128-bit integers and timestamps are milliseconds since
//! the Unix epoch, so that every rule of the engine is stated over plain
//! values.

pub mod api;
pub mod db;
pub mod domain;
mod host;
pub mod service;
pub mod text;
