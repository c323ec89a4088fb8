//! Escrow pool for friendly challenges: participants deposit USDC, the pot
//! earns yield in a treasury vault, and it is either paid to one winner or
//! refunded in equal shares.

pub mod abi;
pub mod address;
pub mod bytes;
pub mod challenge;
pub mod contract;
pub mod host;
pub mod laws;
pub mod logic;
pub mod word;
