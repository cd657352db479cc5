//! Integer and random-number utilities.

pub mod rand;
