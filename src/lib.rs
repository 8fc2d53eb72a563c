//! The protocol engine of a small HTTP/1.1 server: request parsing, routing,
//! response construction with content negotiation, and wire serialization.
pub mod text;
pub mod protocol;
pub mod request;
pub mod response;
pub mod router;
pub mod params;
