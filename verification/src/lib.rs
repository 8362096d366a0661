//! Counts the blocks, costumes and sounds of Scratch, Tencent Coding and Kitten projects,
//! and renders the counts as aligned tables, details and CSV.

pub mod json;
pub mod text;
pub mod model;
pub mod paths;
pub mod archive;
pub mod detect;
pub mod scratch;
pub mod kitten;
pub mod cdc;
pub mod report;
pub mod csv_read;
pub mod json_out;
pub mod project;
