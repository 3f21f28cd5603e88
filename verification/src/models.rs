//! Wire-level data shapes exchanged with clients and with the upstream provider.

pub mod schemas;
