//! RPM packages: recognised by their lead magic; extraction is not
//! supported.

use vstd::prelude::*;
use crate::package::{PackageError, PackageResult, ErrorSpec};
use crate::package::types::{ExtractedPackage, PackageMetadata};
use crate::package::adapters::PackageAdapter;

verus! {

/// RPM package adapter.
#[derive(Debug, Clone, Copy)]
pub struct RpmAdapter;

impl RpmAdapter {
    /// An RPM package adapter.
    pub fn new() -> (r: Self) {
        RpmAdapter
    }
}

impl PackageAdapter for RpmAdapter {
    /// Not supported.
    fn extract(&self, data: &[u8]) -> (r: PackageResult<ExtractedPackage>)
        ensures
            r matches Err(e) && e@ == ErrorSpec::NotImplemented("RPM extraction not yet implemented"@),
    {
        Err(PackageError::not_implemented("RPM extraction not yet implemented"))
    }

    /// Not supported.
    fn parse_metadata(&self, data: &[u8]) -> (r: PackageResult<PackageMetadata>)
        ensures
            r matches Err(e) && e@ == ErrorSpec::NotImplemented("RPM metadata parsing not yet implemented"@),
    {
        Err(PackageError::not_implemented("RPM metadata parsing not yet implemented"))
    }

    /// Whether `data` starts with the big-endian magic `0xEDABEEDB`.
    fn validate(&self, data: &[u8]) -> (r: PackageResult<bool>)
        ensures
            r == Ok::<bool, PackageError>(data@.len() >= 4 && data@[0] == 0xED && data@[1] == 0xAB && data@[2]
                == 0xEE && data@[3] == 0xDB),
    {
        if data.len() < 4 {
            return Ok(false);
        }
        Ok(data[0] == 0xED && data[1] == 0xAB && data[2] == 0xEE && data[3] == 0xDB)
    }

    /// The name of the format.
    fn format_name(&self) -> (r: &str)
        ensures
            r@ == "RPM Package (.rpm)"@,
    {
        "RPM Package (.rpm)"
    }
}

} // verus!
