//! Durations in the format of GEP-2257 (Gateway API), and the GatewayClass
//! resource types.

pub mod duration;
pub mod gatewayclasses;
pub mod interop;
pub mod laws;
pub mod parse;
pub mod pattern;
pub mod text;
