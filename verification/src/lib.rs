//! A rule-driven forensic artefact collector.
//!
//! A catalogue of declarative rules (file / command / memory) selects
//! artefacts on the local host; the collectors turn filesystem and process
//! observations into a deduplicated artefact list, and the archive planner
//! turns that list into ZIP entry descriptions. The sector-aligned reader
//! underpins raw-volume access on hosts whose devices only accept
//! sector-multiple I/O.

pub mod artefacts;
pub mod collecter;
pub mod errors;
pub mod file_collect;
pub mod matching;
pub mod memory_collect;
pub mod paths;
pub mod rules;
pub mod sector;
pub mod sparse;
pub mod timestamps;

pub use errors::CollectError;
