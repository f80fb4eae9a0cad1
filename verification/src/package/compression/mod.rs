//! Compressed package members: format detection and decompression.

use vstd::prelude::*;
use crate::package::{PackageError, PackageResult, ErrorSpec, invalid_format, extraction_error, not_implemented};
use gzip::{GzipDecoder, gzip_payload, raw_inflate, inflate_message};

pub mod tar;
pub mod gzip;

pub use tar::TarArchive;

verus! {

/// Compression formats recognised by their magic bytes.
#[derive(Debug, Clone, Copy, PartialEq, Eq, Structural)]
pub enum CompressionFormat {
    Plain,
    Gzip,
    Xz,
    Zstd,
    Bzip2,
}

/// The format whose magic `data` starts with; data shorter than 4 bytes,
/// or with no known magic, is uncompressed.
pub open spec fn detect_format(data: Seq<u8>) -> CompressionFormat {
    if data.len() < 4 {
        CompressionFormat::Plain
    } else if data[0] == 0x1f && data[1] == 0x8b {
        CompressionFormat::Gzip
    } else if data.len() >= 6 && data[0] == 0xfd && data[1] == 0x37 && data[2] == 0x7a && data[3] == 0x58
        && data[4] == 0x5a && data[5] == 0x00 {
        CompressionFormat::Xz
    } else if data[0] == 0x28 && data[1] == 0xb5 && data[2] == 0x2f && data[3] == 0xfd {
        CompressionFormat::Zstd
    } else if data[0] == 0x42 && data[1] == 0x5a && data[2] == 0x68 {
        CompressionFormat::Bzip2
    } else {
        CompressionFormat::Plain
    }
}

impl CompressionFormat {
    /// The format whose magic `data` starts with (`detect_format`).
    pub fn detect(data: &[u8]) -> (r: Self)
        ensures
            r == detect_format(data@),
    {
        if data.len() < 4 {
            return CompressionFormat::Plain;
        }
        if data[0] == 0x1f && data[1] == 0x8b {
            return CompressionFormat::Gzip;
        }
        if data.len() >= 6 && data[0] == 0xfd && data[1] == 0x37 && data[2] == 0x7a && data[3] == 0x58
            && data[4] == 0x5a && data[5] == 0x00 {
            return CompressionFormat::Xz;
        }
        if data[0] == 0x28 && data[1] == 0xb5 && data[2] == 0x2f && data[3] == 0xfd {
            return CompressionFormat::Zstd;
        }
        if data[0] == 0x42 && data[1] == 0x5a && data[2] == 0x68 {
            return CompressionFormat::Bzip2;
        }
        CompressionFormat::Plain
    }
}

/// What decompressing `data` gives: gzip is decoded; xz, zstd and bzip2
/// are not supported; anything else is returned as it is.
pub open spec fn decompress_result(data: Seq<u8>, r: PackageResult<Vec<u8>>) -> bool {
    match detect_format(data) {
        CompressionFormat::Gzip => match gzip_payload(data) {
            Err(m) => r is Err && invalid_format(r->Err_0, m),
            Ok((a, b)) => match raw_inflate(data.subrange(a as int, b as int)) {
                Ok(v) => r matches Ok(o) && o@ == v,
                Err(f) => r is Err && extraction_error(r->Err_0, inflate_message(f)),
            },
        },
        CompressionFormat::Xz => r is Err && not_implemented(
            r->Err_0,
            "XZ decompression not yet implemented. Consider using libxz port."@,
        ),
        CompressionFormat::Zstd => r is Err && not_implemented(
            r->Err_0,
            "Zstd decompression not yet implemented. Consider using zstd-rs."@,
        ),
        CompressionFormat::Bzip2 => r is Err && not_implemented(
            r->Err_0,
            "Bzip2 decompression not yet implemented. Consider using bzip2-rs."@,
        ),
        CompressionFormat::Plain => r matches Ok(o) && o@ == data,
    }
}

/// What decompressing `data` gives, as values.
pub open spec fn decompress_spec(data: Seq<u8>) -> Result<Seq<u8>, ErrorSpec> {
    match detect_format(data) {
        CompressionFormat::Gzip => match gzip_payload(data) {
            Err(m) => Err(ErrorSpec::InvalidFormat(m)),
            Ok((a, b)) => match raw_inflate(data.subrange(a as int, b as int)) {
                Ok(v) => Ok(v),
                Err(f) => Err(ErrorSpec::ExtractionError(inflate_message(f))),
            },
        },
        CompressionFormat::Xz => Err(
            ErrorSpec::NotImplemented("XZ decompression not yet implemented. Consider using libxz port."@),
        ),
        CompressionFormat::Zstd => Err(
            ErrorSpec::NotImplemented("Zstd decompression not yet implemented. Consider using zstd-rs."@),
        ),
        CompressionFormat::Bzip2 => Err(
            ErrorSpec::NotImplemented("Bzip2 decompression not yet implemented. Consider using bzip2-rs."@),
        ),
        CompressionFormat::Plain => Ok(data),
    }
}

/// Decompresses `data` by its detected format (`decompress_result`).
pub fn decompress(data: &[u8]) -> (r: PackageResult<Vec<u8>>)
    ensures
        decompress_result(data@, r),
        match decompress_spec(data@) {
            Ok(v) => r matches Ok(o) && o@ == v,
            Err(e) => r matches Err(x) && x@ == e,
        },
{
    match CompressionFormat::detect(data) {
        CompressionFormat::Gzip => GzipDecoder::decode(data),
        CompressionFormat::Xz => Err(
            PackageError::not_implemented("XZ decompression not yet implemented. Consider using libxz port."),
        ),
        CompressionFormat::Zstd => Err(
            PackageError::not_implemented("Zstd decompression not yet implemented. Consider using zstd-rs."),
        ),
        CompressionFormat::Bzip2 => Err(
            PackageError::not_implemented("Bzip2 decompression not yet implemented. Consider using bzip2-rs."),
        ),
        CompressionFormat::Plain => {
            let v = crate::net::wire::copy_range(data, 0, data.len());
            assert(v@ =~= data@);
            Ok(v)
        },
    }
}

} // verus!
