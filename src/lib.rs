//! Typed records from a legislative data API whose JSON splits a meeting's
//! timestamp in two, leaves its agenda items to a second request per meeting,
//! and grows undocumented fields: the date and time are merged into one
//! timestamp, the fetched items are attached in order, and every field that no
//! attribute binds is kept in a residual map.

pub mod json;
pub mod datetime;
pub mod fields;
pub mod merge;
pub mod error;
pub mod records;
pub mod event_item;
pub mod events;
pub mod bodytypes;
pub mod mattertypes;
pub mod votetypes;
pub mod client;
