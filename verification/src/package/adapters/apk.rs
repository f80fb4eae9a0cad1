//! Alpine APK packages: gzip-compressed tar archives, recognised by the
//! gzip magic; extraction is not supported.

use vstd::prelude::*;
use crate::package::{PackageError, PackageResult, ErrorSpec};
use crate::package::types::{ExtractedPackage, PackageMetadata};
use crate::package::adapters::PackageAdapter;

verus! {

/// Alpine APK package adapter.
#[derive(Debug, Clone, Copy)]
pub struct ApkAdapter;

impl ApkAdapter {
    /// An APK package adapter.
    pub fn new() -> (r: Self) {
        ApkAdapter
    }
}

impl PackageAdapter for ApkAdapter {
    /// Not supported.
    fn extract(&self, data: &[u8]) -> (r: PackageResult<ExtractedPackage>)
        ensures
            r matches Err(e) && e@ == ErrorSpec::NotImplemented("APK extraction not yet implemented"@),
    {
        Err(PackageError::not_implemented("APK extraction not yet implemented"))
    }

    /// Not supported.
    fn parse_metadata(&self, data: &[u8]) -> (r: PackageResult<PackageMetadata>)
        ensures
            r matches Err(e) && e@ == ErrorSpec::NotImplemented("APK metadata parsing not yet implemented"@),
    {
        Err(PackageError::not_implemented("APK metadata parsing not yet implemented"))
    }

    /// Whether `data` starts with the gzip magic.
    fn validate(&self, data: &[u8]) -> (r: PackageResult<bool>)
        ensures
            r == Ok::<bool, PackageError>(data@.len() >= 2 && data@[0] == 0x1f && data@[1] == 0x8b),
    {
        if data.len() < 2 {
            return Ok(false);
        }
        Ok(data[0] == 0x1f && data[1] == 0x8b)
    }

    /// The name of the format.
    fn format_name(&self) -> (r: &str)
        ensures
            r@ == "Alpine APK Package (.apk)"@,
    {
        "Alpine APK Package (.apk)"
    }
}

} // verus!
