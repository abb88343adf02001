//! A content-addressed record store with owner-scoped link indexes,
//! incremental synchronisation and a lifecycle signal protocol.

pub mod address;
pub mod payload;
pub mod store;
pub mod index;
pub mod sync;
pub mod signal_protocol;
pub mod callbacks;
pub mod entries;
pub mod cell;
