//! Typed, composable decoding and encoding of a generic JSON document tree.
//!
//! The crate owns a small JSON node type ([`value::Json`]) with a
//! mathematical model ([`value::JsonModel`]) that every contract speaks of.
//! On top of it stand the typed decoder protocol ([`decode::FromJson`]) and
//! its mirror encoding capability ([`decode::ToJson`]), an accessor for
//! object-shaped nodes ([`object::JsonMap`]) that reads and writes fields by
//! key and tells a missing field apart from a present but wrongly shaped
//! one, and the canonical text rendering ([`render::render`]) that the error
//! taxonomy ([`error::DecoderError`]) uses to describe what it found.
//! The laws the pieces obey together are proved in [`laws`].

pub mod value;
pub mod render;
pub mod error;
pub mod decode;
pub mod object;
pub mod laws;
