//! Bulk renaming through an edited list of paths: the ordered registry of
//! discovered paths, its text form, and the plan that maps each edited line
//! back to the path at the same index.

pub mod apply;
pub mod registry;
pub mod text;
