//! The two views of a listing.

pub mod default;
pub mod list;
