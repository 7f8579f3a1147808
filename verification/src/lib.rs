//! dot_desktop: a verified resolver for desktop launcher entries.
//!
//! The library parses desktop-entry text into [`entry::Entry`] records,
//! builds a filtered and sorted catalog of the visible ones, and resolves
//! a chosen entry name to the command line that should be printed,
//! substituting an optional argument for the field codes of its template.

pub mod catalog;
pub mod dispatch;
pub mod entry;
pub mod fields;
pub mod section;
pub mod strcmp;
