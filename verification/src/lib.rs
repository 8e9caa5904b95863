//! The decision logic of a small festive web service: address "encryption"
//! on IPv4 and IPv6 octets, and the validation of package manifests written
//! in TOML, JSON or YAML, from which the valid gift orders are listed.

pub mod address;
pub mod text;
pub mod float_literal;
pub mod value;
pub mod formats;
pub mod manifest;
