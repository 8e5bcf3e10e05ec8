//! A filterable, scrollable list component for text-mode user interfaces.
//!
//! The library keeps an ordered collection of styled multi-line items, lets a
//! fuzzy query narrow it to a filtered view with the matched substring
//! highlighted, and computes the minimal contiguous window of items that fits
//! a bounded viewport while always containing the selected item.

pub mod item;
pub mod list;
pub mod matching;
pub mod state;
pub mod style;
