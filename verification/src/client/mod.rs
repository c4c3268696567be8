//! Client-side rules on top of the exchanges.

pub mod primary;
