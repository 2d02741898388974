//! The error kinds that the collection pipeline reports.

use vstd::prelude::*;

verus! {

/// Everything that can go wrong between loading a rule and finalising the
/// archive. Per-artefact failures are trapped by the callers and logged;
/// the kinds here are what the library's functions surface.
#[derive(Clone, Copy, Debug, PartialEq, Eq, Structural)]
pub enum CollectError {
    /// A rule document matched none of the three rule shapes.
    RuleParseError,
    /// No rule of the requested name exists in the catalogue.
    RuleNotFound,
    /// A rule of the same name is already loaded.
    DuplicateRule,
    /// The rule's platform is not the platform this collector runs on.
    WrongPlatformRule,
    /// A raw volume could not be opened.
    VolumeOpenError,
    /// The volume's filesystem structures could not be parsed.
    NtfsParseError,
    /// Path resolution failed below the drive letter.
    PathNotFound,
    /// The resolved file has no data stream of the requested name.
    StreamNotFound,
    /// A required file-record attribute is absent.
    AttributeMissing,
    /// The process list could not be enumerated.
    ProcessEnumError,
    /// The memory dumper failed for a selected process.
    DumpError,
    /// An I/O error while writing the archive.
    ArchiveIoError,
    /// The deduplicated artefact list is empty.
    NothingToCompress,
    /// The output path does not name a writable `.zip` target.
    InvalidOutputPath,
    /// A sector size that is not a power of two.
    InvalidSectorSize,
    /// A seek mode the sector reader cannot honour.
    UnsupportedSeek,
    /// A seek to a negative or overflowing position.
    InvalidSeek,
}

impl CollectError {
    /// A human-readable description, for the front end to print.
    pub fn message(&self) -> &'static str {
        match self {
            CollectError::RuleParseError => "failed to parse document into any known rule type",
            CollectError::RuleNotFound => "no rule with this name",
            CollectError::DuplicateRule => "a rule with this name already exists",
            CollectError::WrongPlatformRule => "rule platform does not match the current platform",
            CollectError::VolumeOpenError => "failed to open the raw volume",
            CollectError::NtfsParseError => "failed to parse the volume's filesystem",
            CollectError::PathNotFound => "path not found on the volume",
            CollectError::StreamNotFound => "the file has no stream of this name",
            CollectError::AttributeMissing => "a required file attribute is missing",
            CollectError::ProcessEnumError => "failed to enumerate processes",
            CollectError::DumpError => "failed to dump process memory",
            CollectError::ArchiveIoError => "failed to write the archive",
            CollectError::NothingToCompress => "no artefacts to compress",
            CollectError::InvalidOutputPath => "output file must end in .zip",
            CollectError::InvalidSectorSize => "sector size is not a power of two",
            CollectError::UnsupportedSeek => "seeking from the end is unsupported",
            CollectError::InvalidSeek => "invalid seek to a negative or overflowing position",
        }
    }
}

} // verus!
