//! Offline reverse geocoding: a hand-written tokenizer for comma-delimited
//! address records, an adapter that maps a fixed twelve-field schema onto an
//! address record, and a nearest-match engine that filters stored addresses
//! by distance and reduces to the closest one.

pub mod csv;
pub mod geocoder;
pub mod geolonia;
