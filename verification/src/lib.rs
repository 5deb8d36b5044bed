//! Compact per-codepoint case-mapping exception data.
//!
//! Irregular case mappings (those that do not fit a single linear delta) are
//! stored as variable-length *exception records*: a 16-bit packed header that
//! says which optional slots are present, followed by the present slots as
//! 16-bit words. A record is validated once, at the trust boundary, and is
//! then read in place through a typed view with constant-time accessors.
//!
//! The modules, from the wire up:
//! - [`slots`]: the slot kinds, mapping kinds and dot types.
//! - [`header`]: the packed 16-bit header and its bit layout.
//! - [`validate`]: the layout gate that every untrusted byte span passes
//!   before a record view is constructed.
//! - [`record`]: the zero-copy record view and its query accessors.
//! - [`builder`]: the logical description of a record, the encoder that packs
//!   it, and the decoder that recovers it (round-trip proved).
//! - [`table`]: an indexed collection of packed records with a string side
//!   table.
//! - [`property_data`]: the plain data shape of a binary-property data file
//!   and the checked conversion of its codepoint ranges.

pub mod builder;
pub mod header;
pub mod property_data;
pub mod record;
pub mod slots;
pub mod table;
pub mod validate;
