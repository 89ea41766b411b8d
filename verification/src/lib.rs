//! The verified core of `tx-pigeon`, a service that hands a Bitcoin transaction
//! to every libre-relay node it can find.

pub mod address;
pub mod broadcast;
pub mod crawl;
pub mod delivery;
pub mod onion;
pub mod peers;
pub mod seeds;
pub mod services;
pub mod shuffle;
pub mod text;
pub mod transaction;
pub mod wire;
