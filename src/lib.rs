//! Court-booking records kept in durable memory: a counter that hands out
//! ids, an ordered map of stored bookings, and the service on top of them.

pub mod codec;
pub mod error;
pub mod ids;
pub mod laws;
pub mod rental;
pub mod service;
pub mod stable;
pub mod store;
