//! An encrypted, self-consistent record and session store for an
//! administrative control plane.
//!
//! The crate keeps an in-memory mirror of every durable record, issues and
//! expires session tokens bound to a user, and tracks a change epoch for
//! long-poll subscribers. Every function states its behaviour in a contract
//! over a mathematical model of the data it touches.

pub mod outcome;
pub mod crypto;
pub mod string_map;
pub mod json;
pub mod records;
pub mod table;
pub mod mirror;
pub mod session;
pub mod bus;
pub mod pawl;
pub mod admin;
pub mod auth;
pub mod bootstrap;
