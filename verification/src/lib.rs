//! Parser for the tab-indented "PMA" object-tree configuration format:
//! a line-oriented, keyword-delimited text format describing hierarchical
//! navigation objects (routes, waypoints, gates) and their attributes.

pub mod laws;
pub mod model;
pub mod params;
pub mod read_pma;
pub mod strutil;
