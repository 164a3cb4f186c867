//! Reads the timetable of a school out of an archive of HTML pages.
//!
//! Each page shows the week of one teacher or of one student group as
//! tables: a row for each day, a cell for each slot. The library decodes a
//! page, finds out whose page it is, reads every cell into a lesson or a
//! free slot, and gathers the pages of an archive into one timetable with
//! an index of the names.
//!
//! Everything here is verified but for the calls into `scraper`, which
//! parses and queries the HTML, and into `encoding`, which decodes
//! windows-1251: the contracts of the functions that call them speak of
//! their results by name.

pub mod archive;
pub mod cell;
pub mod classify;
pub mod decode;
pub mod markup;
pub mod order;
pub mod page;
pub mod schedule;
pub mod text;
pub mod types;

pub use archive::parse;
