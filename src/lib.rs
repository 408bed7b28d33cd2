//! Owners, dogs and dog-walking bookings: record identifiers, the conversion
//! of request payloads into stored records, and the gateway over the three
//! record collections with its enriched booking queries.

pub mod ids;
pub mod models;
pub mod store;
pub mod routes;
pub mod laws;
