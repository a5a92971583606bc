//! Detection of backward-incompatible changes between two versions of a
//! structured API description.  Two parsed documents are compared into a
//! single difference tree; a set of independent rules then walks that tree
//! once, each rule recording the locations it cares about and draining them
//! into reported issues.
pub mod checker;
pub mod diff_core;
pub mod json;
pub mod path_pointer;
pub mod diff;
pub mod differ;
pub mod schema;
pub mod stats;
pub mod schema_diff;
pub mod visitor;
