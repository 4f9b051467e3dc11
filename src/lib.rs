//! Transaction-signing core of an IOTA hardware-wallet application: a streaming
//! parser and shape policy for programmable transactions, the decimal rendering
//! of amounts, derivation-path checks, the signing flow and the idle menu.

mod bounded;

pub mod stream;

pub mod amount;
pub mod bip32;
pub mod schema;
pub mod transaction;
pub mod policy;
pub mod sign;
pub mod menu;
