//! A small HTTP/1.1 protocol layer: request parsing, response framing and
//! request routing, each stated over sequences of characters and proved.
pub mod text;
pub mod request;
pub mod response;
pub mod router;
pub mod laws;
