//! A single-user ticket store: validated ticket fields, a store that hands out
//! ids that are never reused, partial updates, deletion with an audit record,
//! and a plain snapshot of the whole store for persistence.

pub mod clock;
pub mod command;
pub mod laws;
pub mod status;
pub mod store;
pub mod ticket;
