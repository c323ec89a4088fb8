//! What holds of the pool as a whole.

pub mod amounts;
pub mod effects;
pub mod funding;
pub mod guards;
pub mod history;
pub mod interleaving;
pub mod lifecycle;
pub mod messages;
pub mod readings;
pub mod runs;
pub mod shares;
pub mod steps;
