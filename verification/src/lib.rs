//! Runtime path configuration and the lagged Fibonacci random number
//! generator of the Static Chaos MUD server, with their contracts.

pub mod config;
pub mod util;
