//! Construction of `multipart/form-data` byte payloads for synthetic HTTP
//! request bodies: an ordered collection of parts behind a fluent builder,
//! and a byte-exact encoder producing the body and the matching
//! `Content-Type` header value.

pub mod builder;
pub mod encoding;
pub mod laws;
pub mod outside;

pub use builder::SerializationError;
pub use builder::TestMultipartBuilder;
