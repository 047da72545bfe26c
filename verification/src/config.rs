//! What the configuration of the destinations is made from.

pub mod wizard;
