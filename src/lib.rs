//! Serialises the live objects of a managed runtime into structured values,
//! using only the runtime's type metadata and raw memory reads.
//!
//! The engine sees the runtime through the [`host::Host`] adapter. The object
//! graph walker ([`graph`]) and the static snapshot walker ([`statics`]) decode
//! fields through the value rules of [`decode`] and [`enums`]; every function
//! states its result as a specification function over the adapter's answers.

pub mod config;
pub mod decode;
pub mod enums;
pub mod graph;
pub mod host;
pub mod memory;
pub mod records;
pub mod search;
pub mod session;
pub mod statics;
pub mod text;
pub mod value;
