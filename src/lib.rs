//! Decoding, correlation and reporting for a monitoring probe of a database
//! server: fixed-layout status buffers become process, cursor and
//! configuration records, processes are counted per database through their
//! cursors, and the counts become passive check lines.

pub mod aggregate;
pub mod decoder;
pub mod records;
pub mod report;
pub mod schema;
pub mod setup;
pub mod text;
