//! A polymorphic link store: directed edges whose endpoints may be any one of
//! three heterogeneous node kinds (bookmark, note, list), persisted as three
//! mutually exclusive nullable columns per side, and resolved back into fully
//! typed destination nodes in a single pass over the table.

pub mod laws;
pub mod links;
pub mod store;
pub mod nodes;
