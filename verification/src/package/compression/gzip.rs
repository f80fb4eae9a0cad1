//! The gzip container: a 10-byte header (magic, method, flags, ...), the
//! optional extra field, name, comment and header checksum, the DEFLATE
//! stream, and an 8-byte trailer. The DEFLATE stream is inflated by
//! `miniz_oxide`.

use vstd::prelude::*;
use crate::package::{PackageError, PackageResult, invalid_format, extraction_error};

verus! {

/// Size of the fixed gzip header.
pub const GZIP_HEADER_SIZE: usize = 10;

/// The decimal digit `d` as a character.
pub open spec fn digit_char(d: nat) -> char {
    (48 + d) as char
}

/// `n` written in decimal.
pub open spec fn decimal(n: nat) -> Seq<char>
    decreases n,
{
    if n < 10 {
        seq![digit_char(n)]
    } else {
        decimal(n / 10).push(digit_char(n % 10))
    }
}

/// `n` written in decimal.
pub fn decimal_u8(n: u8) -> (r: String)
    ensures
        r@ == decimal(n as nat),
{
    let mut s = String::new();
    if n >= 100 {
        crate::package::text::push_char(&mut s, ((n / 100) + 48) as char);
    }
    if n >= 10 {
        crate::package::text::push_char(&mut s, (((n / 10) % 10) + 48) as char);
    }
    crate::package::text::push_char(&mut s, ((n % 10) + 48) as char);
    proof {
        if n >= 100 {
            assert(decimal((n / 100) as nat) == seq![digit_char((n / 100) as nat)]);
            assert(decimal((n / 10) as nat) == decimal((n / 100) as nat).push(digit_char(((n / 10) % 10) as nat)));
        } else if n >= 10 {
            assert(decimal((n / 10) as nat) == seq![digit_char((n / 10) as nat)]);
        }
    }
    s
}

/// The offset just past the zero-terminated field that starts at `off`
/// (one past the end of `data` when no zero follows).
pub open spec fn skip_zero_terminated(data: Seq<u8>, off: nat) -> nat
    decreases data.len() - off,
{
    if off < data.len() && data[off as int] != 0 {
        skip_zero_terminated(data, off + 1)
    } else {
        off + 1
    }
}

/// The bounds of the DEFLATE stream of a gzip file, or the message of what
/// is wrong with its header.
pub open spec fn gzip_payload(data: Seq<u8>) -> Result<(nat, nat), Seq<char>> {
    if data.len() < 10 {
        Err("File too small to be gzip"@)
    } else if data[0] != 0x1f || data[1] != 0x8b {
        Err("Invalid gzip magic number"@)
    } else if data[2] != 8 {
        Err("Unsupported compression method: "@ + decimal(data[2] as nat))
    } else {
        let flags = data[3];
        if flags & 4 != 0 && data.len() < 12 {
            Err("Truncated extra field"@)
        } else {
            let o1: nat = if flags & 4 != 0 {
                (12 + data[10] as nat + data[11] as nat * 256) as nat
            } else {
                10
            };
            let o2 = if flags & 8 != 0 {
                skip_zero_terminated(data, o1)
            } else {
                o1
            };
            let o3 = if flags & 0x10 != 0 {
                skip_zero_terminated(data, o2)
            } else {
                o2
            };
            let o4 = if flags & 2 != 0 {
                o3 + 2
            } else {
                o3
            };
            if o4 >= data.len() {
                Err("Gzip header extends beyond data"@)
            } else if data.len() < o4 + 8 {
                Err("Gzip file too short for footer"@)
            } else {
                Ok((o4, (data.len() - 8) as nat))
            }
        }
    }
}

/// How inflating a DEFLATE stream ended, when it did not succeed.
#[derive(Debug, Clone, Copy, PartialEq, Eq, Structural)]
pub enum InflateFailure {
    FailedCannotMakeProgress,
    BadParam,
    Adler32Mismatch,
    Failed,
    Done,
    NeedsMoreInput,
    HasMoreOutput,
}

/// What `miniz_oxide` inflates the raw DEFLATE stream `data` to.
pub uninterp spec fn raw_inflate(data: Seq<u8>) -> Result<Seq<u8>, InflateFailure>;

/// Inflates a raw DEFLATE stream.
///
/// Trusted: calls `miniz_oxide::inflate::decompress_to_vec`, which runs
/// the decompressor over the whole input without an output limit and
/// returns the output or the failing status. Its result is named
/// `raw_inflate` of the input; nothing more is stated of it.
#[verifier::external_body]
fn inflate(data: &[u8]) -> (r: Result<Vec<u8>, InflateFailure>)
    ensures
        match (r, raw_inflate(data@)) {
            (Ok(out), Ok(v)) => out@ == v,
            (Err(a), Err(b)) => a == b,
            _ => false,
        },
{
    match miniz_oxide::inflate::decompress_to_vec(data) {
        Ok(v) => Ok(v),
        Err(e) => Err(
            match e.status {
                miniz_oxide::inflate::TINFLStatus::FailedCannotMakeProgress => InflateFailure::FailedCannotMakeProgress,
                miniz_oxide::inflate::TINFLStatus::BadParam => InflateFailure::BadParam,
                miniz_oxide::inflate::TINFLStatus::Adler32Mismatch => InflateFailure::Adler32Mismatch,
                miniz_oxide::inflate::TINFLStatus::Failed => InflateFailure::Failed,
                miniz_oxide::inflate::TINFLStatus::Done => InflateFailure::Done,
                miniz_oxide::inflate::TINFLStatus::NeedsMoreInput => InflateFailure::NeedsMoreInput,
                miniz_oxide::inflate::TINFLStatus::HasMoreOutput => InflateFailure::HasMoreOutput,
            },
        ),
    }
}

/// The message for a failed inflation.
pub open spec fn inflate_message(f: InflateFailure) -> Seq<char> {
    match f {
        InflateFailure::NeedsMoreInput => "Incomplete DEFLATE stream: unexpected end of input"@,
        InflateFailure::BadParam => "DEFLATE decompression failed: bad parameter"@,
        InflateFailure::Adler32Mismatch => "DEFLATE decompression failed: checksum mismatch"@,
        InflateFailure::FailedCannotMakeProgress => "DEFLATE decompression failed: cannot make progress"@,
        InflateFailure::HasMoreOutput => "DEFLATE decompression failed: output too large"@,
        _ => "DEFLATE decompression failed: corrupted data"@,
    }
}

/// Gzip decoding.
#[derive(Debug, Clone, Copy)]
pub struct GzipDecoder;

impl GzipDecoder {
    /// The result of inflating: the output, or an `ExtractionError` that
    /// says how inflating failed.
    pub fn finish_inflate(r: Result<Vec<u8>, InflateFailure>) -> (out: PackageResult<Vec<u8>>)
        ensures
            match r {
                Ok(v) => out matches Ok(o) && o@ == v@,
                Err(f) => out is Err && extraction_error(out->Err_0, inflate_message(f)),
            },
    {
        match r {
            Ok(v) => Ok(v),
            Err(f) => Err(
                match f {
                    InflateFailure::NeedsMoreInput => PackageError::extraction(
                        "Incomplete DEFLATE stream: unexpected end of input",
                    ),
                    InflateFailure::BadParam => PackageError::extraction(
                        "DEFLATE decompression failed: bad parameter",
                    ),
                    InflateFailure::Adler32Mismatch => PackageError::extraction(
                        "DEFLATE decompression failed: checksum mismatch",
                    ),
                    InflateFailure::FailedCannotMakeProgress => PackageError::extraction(
                        "DEFLATE decompression failed: cannot make progress",
                    ),
                    InflateFailure::HasMoreOutput => PackageError::extraction(
                        "DEFLATE decompression failed: output too large",
                    ),
                    _ => PackageError::extraction("DEFLATE decompression failed: corrupted data"),
                },
            ),
        }
    }

    /// Inflates a raw DEFLATE stream.
    pub fn decompress_deflate(compressed: &[u8]) -> (out: PackageResult<Vec<u8>>)
        ensures
            match raw_inflate(compressed@) {
                Ok(v) => out matches Ok(o) && o@ == v,
                Err(f) => out is Err && extraction_error(out->Err_0, inflate_message(f)),
            },
    {
        let r = inflate(compressed);
        Self::finish_inflate(r)
    }

    /// The bounds of the DEFLATE stream in a gzip file (`gzip_payload`).
    pub fn payload_bounds(data: &[u8]) -> (r: PackageResult<(usize, usize)>)
        ensures
            match gzip_payload(data@) {
                Ok((a, b)) => r == Ok::<(usize, usize), PackageError>((a as usize, b as usize)),
                Err(m) => r is Err && invalid_format(r->Err_0, m),
            },
            r matches Ok((a, b)) ==> a <= b <= data@.len(),
    {
        let n = data.len();
        if n < GZIP_HEADER_SIZE {
            return Err(PackageError::format_error("File too small to be gzip"));
        }
        if data[0] != 0x1f || data[1] != 0x8b {
            return Err(PackageError::format_error("Invalid gzip magic number"));
        }
        if data[2] != 8 {
            let mut msg = String::from_str("Unsupported compression method: ");
            let d = decimal_u8(data[2]);
            crate::text::append_str(&mut msg, d.as_str());
            return Err(PackageError::InvalidFormat(msg));
        }
        let flags = data[3];
        let mut offset: u128 = 10;
        if flags & 4 != 0 {
            if n < 12 {
                return Err(PackageError::format_error("Truncated extra field"));
            }
            let xlen = data[10] as u128 + data[11] as u128 * 256;
            offset = 12 + xlen;
        }
        let ghost o1 = offset;
        if flags & 8 != 0 {
            offset = Self::skip_field(data, offset);
        }
        let ghost o2 = offset;
        if flags & 0x10 != 0 {
            offset = Self::skip_field(data, offset);
        }
        if flags & 2 != 0 {
            offset = offset + 2;
        }
        if offset >= n as u128 {
            return Err(PackageError::format_error("Gzip header extends beyond data"));
        }
        if (n as u128) < offset + 8 {
            return Err(PackageError::format_error("Gzip file too short for footer"));
        }
        Ok((offset as usize, n - 8))
    }

    /// The offset past the zero-terminated field at `off`.
    fn skip_field(data: &[u8], off: u128) -> (r: u128)
        requires
            off <= 0x1_0000_0000_0000_0000_0000,
        ensures
            r == skip_zero_terminated(data@, off as nat),
            r <= (if off > data@.len() { off + 1 } else { data@.len() + 1int }),
    {
        let mut o = off;
        while o < data.len() as u128 && data[o as usize] != 0
            invariant
                off <= o,
                o <= off || o <= data@.len(),
                off <= 0x1_0000_0000_0000_0000_0000,
                skip_zero_terminated(data@, off as nat) == skip_zero_terminated(data@, o as nat),
            decreases data@.len() - o,
        {
            o = o + 1;
        }
        o + 1
    }

    /// Decodes a gzip file: checks the header, finds the DEFLATE stream
    /// between the header and the 8-byte trailer, and inflates it.
    pub fn decode(data: &[u8]) -> (r: PackageResult<Vec<u8>>)
        ensures
            match gzip_payload(data@) {
                Err(m) => r is Err && invalid_format(r->Err_0, m),
                Ok((a, b)) => match raw_inflate(data@.subrange(a as int, b as int)) {
                    Ok(v) => r matches Ok(o) && o@ == v,
                    Err(f) => r is Err && extraction_error(r->Err_0, inflate_message(f)),
                },
            },
    {
        let (start, end) = match Self::payload_bounds(data) {
            Ok(b) => b,
            Err(e) => {
                return Err(e);
            },
        };
        let n = data.len();
        let compressed = vstd::slice::slice_subrange(data, start, end);
        proof {
            assert(n == data@.len());
            let p = gzip_payload(data@);
            assert(p is Ok);
            let (a, b) = p->Ok_0;
            assert(b == data@.len() - 8);
            assert(a < data@.len());
            assert(a == start && b == end);
            assert(compressed@ == data@.subrange(a as int, b as int));
        }
        Self::decompress_deflate(compressed)
    }

    /// Whether `data` starts with the gzip magic.
    pub fn validate(data: &[u8]) -> (r: bool)
        ensures
            r == (data@.len() >= 2 && data@[0] == 0x1f && data@[1] == 0x8b),
    {
        data.len() >= 2 && data[0] == 0x1f && data[1] == 0x8b
    }
}

/// Where the DEFLATE stream of a gzip file lies. A file whose header reads
/// starts with the magic 0x1f 0x8b and compression method 8 (deflate); its
/// stream starts after the header, no earlier than byte 10 and exactly
/// there when no optional field is flagged, and ends where the 8-byte
/// footer begins. A file shorter than 10 bytes, or with another magic or
/// method, does not read.
pub proof fn lemma_gzip_payload_bounds(data: Seq<u8>)
    ensures
        gzip_payload(data) matches Ok((start, end)) ==> {
            &&& data.len() >= 18
            &&& data[0] == 0x1f && data[1] == 0x8b && data[2] == 8
            &&& end == data.len() - 8
            &&& 10 <= start <= end
            &&& (data[3] & 0x1e == 0 ==> start == 10)
        },
        data.len() < 10 ==> gzip_payload(data) is Err,
        data.len() >= 10 && (data[0] != 0x1f || data[1] != 0x8b || data[2] != 8) ==> gzip_payload(data) is Err,
{
    if data.len() >= 10 {
        let flags = data[3];
        assert(flags & 0x1e == 0 ==> flags & 4 == 0 && flags & 8 == 0 && flags & 0x10 == 0 && flags & 2 == 0)
            by (bit_vector);
        lemma_skip_grows(data, 10);
        if flags & 4 != 0 && data.len() >= 12 {
            let o1: nat = (12 + data[10] as nat + data[11] as nat * 256) as nat;
            lemma_skip_grows(data, o1);
            lemma_skip_grows(data, skip_zero_terminated(data, o1));
        }
        lemma_skip_grows(data, skip_zero_terminated(data, 10));
    }
}

/// Skipping a zero-terminated field moves past its start.
proof fn lemma_skip_grows(data: Seq<u8>, off: nat)
    ensures
        skip_zero_terminated(data, off) > off,
    decreases data.len() - off,
{
    if off < data.len() && data[off as int] != 0 {
        lemma_skip_grows(data, off + 1);
    }
}

} // verus!
