//! GeoJSON (RFC 7946) object model with a verified decoder and encoder.
//!
//! The crate maps a fully materialized JSON value tree to a typed model of
//! the GeoJSON format — `Geometry`, `Feature`, `FeatureCollection` — and
//! back.  Decoding either returns a complete, well-formed model value or the
//! first error encountered; encoding is its inverse, and for values without
//! foreign members the round trip is proved exact.

pub mod json;
pub mod error;
pub mod model;
pub mod codec;
pub mod util;
pub mod encode;
pub mod geojson;
