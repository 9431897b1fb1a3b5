//! Invoice records and the directory-backed store that keeps them.
//!
//! The library holds the record model, the rule that binds an invoice number
//! to the name of its directory, and the decisions of the store: which scanned
//! directories become entries, which file is an entry's preview image, which
//! directories a deletion removes, and when a creation collides. Reading and
//! writing the disk is left to the caller, who hands over what it found as
//! plain values.

pub mod artifact;
pub mod laws;
pub mod naming;
pub mod record;
pub mod sample;
pub mod store;
