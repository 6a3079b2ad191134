//! Versioned on-disk snapshots of a global-state store ("fixtures"): where they
//! live, what their descriptor records, and the decisions taken when one is
//! generated, loaded or compacted.

pub mod text;
pub mod hash;
pub mod version;
pub mod error;
pub mod layout;
pub mod descriptor;
pub mod lifecycle;
