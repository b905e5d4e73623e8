//! Typed client-side core for a remote document store.
//!
//! The library converts between typed payloads and the generic field-map
//! documents the store exchanges, assigns and extracts record identifiers,
//! builds the requests of the store's six primitive operations, and
//! interprets their responses. The transport that carries a request to the
//! server is not part of this crate: a caller sends a built request over
//! whatever channel it owns and hands the response back to the matching
//! interpreter.

pub mod codec;
pub mod collection;
pub mod doc;
pub mod errors;
pub mod ident;
pub mod payload;
pub mod store;
pub mod wire;

pub use collection::{RusCollection, RusDocument};
pub use doc::{Doc, Value};
pub use errors::DbError;
pub use ident::Ident;
pub use payload::Payload;
