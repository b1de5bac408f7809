//! Resolution of interface-description descriptors into a cross-referenced model: vendor
//! annotations decoded from their wire bytes, message types resolved by fully-qualified
//! name, and the read and write methods of parameter services paired into groups.
pub mod annotations;
pub mod defs;
pub mod descriptor_set;
pub mod name_map;
pub mod naming;
pub mod proto_reader;
pub mod raw;
pub mod wire;
