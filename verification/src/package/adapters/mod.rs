//! Adapters for package formats.

use vstd::prelude::*;
use crate::package::PackageResult;
use crate::package::types::{ExtractedPackage, PackageMetadata};

pub mod control;
pub mod deb;
pub mod rpm;
pub mod apk;

pub use deb::DebAdapter;
pub use rpm::RpmAdapter;
pub use apk::ApkAdapter;

verus! {

/// A package format: extraction, metadata, validation and its name.
pub trait PackageAdapter {
    /// Extracts a package from the bytes of its file.
    fn extract(&self, data: &[u8]) -> PackageResult<ExtractedPackage>
        requires
            data@.len() + 2 <= usize::MAX,
    ;

    /// Reads the metadata of a package without extracting it.
    fn parse_metadata(&self, data: &[u8]) -> PackageResult<PackageMetadata>
        requires
            data@.len() + 2 <= usize::MAX,
    ;

    /// Whether the bytes look like a package of this format.
    fn validate(&self, data: &[u8]) -> PackageResult<bool>;

    /// The name of the format.
    fn format_name(&self) -> &str;
}

} // verus!
