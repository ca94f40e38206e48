//! High-level D-Bus support: a verified value codec for D-Bus style
//! signatures and a schema-driven method dispatcher.

pub mod convert;
pub mod interface;
pub mod introspection;
pub mod message;
pub mod own_name;
pub mod signature;
pub mod variant;
