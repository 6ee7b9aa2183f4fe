//! Catalogs a music collection laid out as `<root>/<band>/<year> - <album>/...`
//! and reconciles it into a sorted spreadsheet.
//!
//! The crate has two verified subsystems: the metadata consensus engine
//! (`consensus`), which folds per-file bitrate and genre observations into one
//! album-level pair, and the spreadsheet synchronizer (`sync`), which places a
//! band's new rows at the correct sorted position of an existing sheet.

pub mod catalog;
pub mod consensus;
pub mod laws;
pub mod sheet;
pub mod sync;
pub mod text;
