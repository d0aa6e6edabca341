//! Verified core of a small client for the TIDAL music service: request
//! building, URL and file-name sanitising, and the decoding of playback
//! manifests. Network, terminal and file I/O live in the `app` crate.

pub mod external;
pub mod text;
pub mod util;
pub mod query;
pub mod structs;
pub mod user;
pub mod api;
pub mod json;
