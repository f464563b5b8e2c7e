//! A synthetic market-quote producer: quote values, a rate that doubles on a
//! cooldown, a bounded store of the most recent quotes per instrument and
//! side, and the producer's tick-by-tick decisions.

pub mod channel;
pub mod market_maker;
pub mod quote;
pub mod random;
pub mod rate;
pub mod store;
pub mod text;
