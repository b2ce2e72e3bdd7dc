//! Layout engine of a directory lister: text metrics, entry ordering, the
//! multi-column grid and the bordered tree table.

pub mod decimal;
pub mod element;
pub mod size;
pub mod sorting;
pub mod utils;
pub mod out;
