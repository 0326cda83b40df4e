//! A keyboard-driven picker: named text entries are loaded from `name: content`
//! lines, filtered by a case-insensitive substring query, cycled through, and the
//! highlighted entry's content is handed out for copying.

pub mod filter;
pub mod picker;
pub mod store;
pub mod text;
