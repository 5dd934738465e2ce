//! Rules of a local media library: how file names, directories and probe
//! output become titles, artists, series and groups, and how a scan, a page
//! query and a merge request are decided.

pub mod analysis;
pub mod config;
pub mod directories;
pub mod episodes;
pub mod grouping;
pub mod groups;
pub mod json;
pub mod library;
pub mod library_laws;
pub mod media;
pub mod media_laws;
pub mod music;
pub mod name_laws;
pub mod order;
pub mod paths;
pub mod pattern;
pub mod probe;
pub mod query;
pub mod query_laws;
pub mod report;
pub mod rules;
pub mod scan;
pub mod scan_laws;
pub mod schema;
pub mod separation;
pub mod setup_laws;
pub mod statements;
pub mod store;
pub mod store_laws;
pub mod tables;
pub mod text;
pub mod text_laws;
pub mod titles;
pub mod totals;
pub mod unicode;
