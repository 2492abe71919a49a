//! Synthesis of client data types from a graph of schema nodes.
//!
//! A run goes through the modules in this order:
//!
//! - [`schema`] holds the nodes of the source document;
//! - [`resolve`] gives every node its identity in the [`registry`], which
//!   keeps one entry for every distinct node; [`stability`] holds the laws of
//!   that step;
//! - [`names`] makes legal names for types and fields;
//! - [`render`] writes the type expression of an identity and classifies how
//!   its values travel, and [`policy`] derives the serialization policy of a
//!   field from that;
//! - [`enums`], [`records`], [`unions`] and [`flatten`] build the definition
//!   of one type each and write it, and [`types`] writes all of them.
//!
//! [`client`], [`firewall`], [`racks`] and [`snapshots`] compute the requests
//! of a client that uses such types; [`text`] and [`emit`] are the text
//! primitives underneath.

pub mod client;
pub mod emit;
pub mod enums;
pub mod firewall;
pub mod flatten;
pub mod names;
pub mod policy;
pub mod racks;
pub mod records;
pub mod registry;
pub mod render;
pub mod resolve;
pub mod schema;
pub mod snapshots;
pub mod stability;
pub mod text;
pub mod types;
pub mod unions;
