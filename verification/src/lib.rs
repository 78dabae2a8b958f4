//! Booking repository for a dog-walking service: owners, dogs and bookings,
//! the identifiers that link them, and the query that lists the bookings
//! that are still to come together with their owner and the owner's dogs.

mod clock;
pub mod database;
pub mod error;
pub mod identifier;
pub mod join;
pub mod laws;
pub mod models;
