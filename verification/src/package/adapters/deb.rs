//! Debian packages: an `ar` archive holding `control.tar.*` (the control
//! file and maintainer scripts) and `data.tar.*` (the files).

use vstd::prelude::*;
use vstd::utf8::{valid_utf8, decode_utf8};
use crate::package::{PackageError, PackageResult, ErrorSpec};
use crate::package::types::{ExtractedPackage, PackageMetadata};
use crate::package::archive::ar::{ArArchive, ArEntry, ar_parse, ar_magic, first_member_named};
use crate::package::compression::{decompress, decompress_spec};
use crate::package::compression::tar::{TarArchive, TarItem, tar_entries_from, first_entry_named, items_of};
use crate::package::adapters::PackageAdapter;
use crate::package::adapters::control::{ControlFields, control_fields, fields_of, parse_control_file};
use crate::text::utf8_to_string;

verus! {

/// The data of the first member that answers to `name`.
pub open spec fn member_data(ms: Seq<ArEntry>, name: Seq<char>) -> Option<Seq<u8>> {
    match first_member_named(ms, name) {
        Some(i) => Some(ms[i].data),
        None => None,
    }
}

/// The control archive member: `control.tar.gz`, else `control.tar.xz`.
pub open spec fn control_member(ms: Seq<ArEntry>) -> Option<Seq<u8>> {
    match member_data(ms, "control.tar.gz"@) {
        Some(d) => Some(d),
        None => member_data(ms, "control.tar.xz"@),
    }
}

/// The data archive member: `data.tar.gz`, else `.xz`, else `.bz2`.
pub open spec fn data_member(ms: Seq<ArEntry>) -> Option<Seq<u8>> {
    match member_data(ms, "data.tar.gz"@) {
        Some(d) => Some(d),
        None => match member_data(ms, "data.tar.xz"@) {
            Some(d) => Some(d),
            None => member_data(ms, "data.tar.bz2"@),
        },
    }
}

/// The entries of a compressed tar member, or the error on the way.
pub open spec fn tar_stage(member: Option<Seq<u8>>, missing: Seq<char>) -> Result<Seq<TarItem>, ErrorSpec> {
    match member {
        None => Err(ErrorSpec::InvalidFormat(missing)),
        Some(b) => match decompress_spec(b) {
            Err(e) => Err(e),
            Ok(t) => match tar_entries_from(t, 0) {
                Ok(items) => Ok(items),
                Err(m) => Err(ErrorSpec::InvalidFormat(m)),
            },
        },
    }
}

/// The control file entry: the first entry whose path ends with
/// `control`, else with `./control`.
pub open spec fn control_entry(items: Seq<TarItem>) -> Option<TarItem> {
    match first_entry_named(items, "control"@) {
        Some(i) => Some(items[i]),
        None => match first_entry_named(items, "./control"@) {
            Some(i) => Some(items[i]),
            None => None,
        },
    }
}

/// The metadata of a package file, or the error on the way.
pub open spec fn deb_metadata(data: Seq<u8>) -> Result<ControlFields, ErrorSpec> {
    match ar_parse(data) {
        Err(m) => Err(ErrorSpec::InvalidFormat(m)),
        Ok(ms) => match tar_stage(control_member(ms), "Missing control archive"@) {
            Err(e) => Err(e),
            Ok(items) => match control_entry(items) {
                None => Err(ErrorSpec::InvalidFormat("Missing control file in control archive"@)),
                Some(e) => if !valid_utf8(e.data) {
                    Err(ErrorSpec::InvalidFormat("Invalid UTF-8 in control file"@))
                } else {
                    let f = control_fields(decode_utf8(e.data));
                    if f.name.len() == 0 || f.version.len() == 0 {
                        Err(ErrorSpec::InvalidFormat("Missing required fields in control file"@))
                    } else {
                        Ok(f)
                    }
                },
            },
        },
    }
}

/// `s` without leading `./` prefixes.
pub open spec fn strip_dot_slash(s: Seq<char>) -> Seq<char>
    decreases s.len(),
{
    if s.len() >= 2 && s[0] == '.' && s[1] == '/' {
        strip_dot_slash(s.subrange(2, s.len() as int))
    } else {
        s
    }
}

/// Whether `s` starts with `prefix`.
pub open spec fn starts_with(s: Seq<char>, prefix: Seq<char>) -> bool {
    prefix.len() <= s.len() && s.subrange(0, prefix.len() as int) == prefix
}

/// Whether a control archive path names a maintainer script.
pub open spec fn is_script_name(p: Seq<char>) -> bool {
    starts_with(p, "post"@) || starts_with(p, "pre"@) || p == "config"@
}

/// The scripts among the first `n` control entries, by name.
pub open spec fn scripts_from(items: Seq<TarItem>, n: int) -> Map<Seq<char>, Seq<char>>
    decreases n,
{
    if n <= 0 {
        Map::empty()
    } else {
        let prev = scripts_from(items, n - 1);
        let e = items[n - 1];
        let p = strip_dot_slash(e.path);
        if is_script_name(p) && valid_utf8(e.data) {
            prev.insert(p, decode_utf8(e.data))
        } else {
            prev
        }
    }
}

/// The files of the first `n` data entries, by path.
pub open spec fn files_from(items: Seq<TarItem>, n: int) -> Map<Seq<char>, Seq<u8>>
    decreases n,
{
    if n <= 0 {
        Map::empty()
    } else {
        files_from(items, n - 1).insert(items[n - 1].path, items[n - 1].data)
    }
}

/// What extracting a package file gives: its metadata, files and scripts.
pub open spec fn deb_extract(data: Seq<u8>) -> Result<
    (ControlFields, Map<Seq<char>, Seq<u8>>, Map<Seq<char>, Seq<char>>),
    ErrorSpec,
> {
    if !(data.len() >= 8 && data.subrange(0, 8) == ar_magic()) {
        Err(ErrorSpec::InvalidFormat(".deb file format validation failed"@))
    } else {
        match ar_parse(data) {
            Err(m) => Err(ErrorSpec::InvalidFormat(m)),
            Ok(ms) => match deb_metadata(data) {
                Err(e) => Err(e),
                Ok(f) => match tar_stage(control_member(ms), "Missing control archive in .deb"@) {
                    Err(e) => Err(e),
                    Ok(citems) => match tar_stage(data_member(ms), "Missing data archive in .deb"@) {
                        Err(e) => Err(e),
                        Ok(ditems) => Ok(
                            (f, files_from(ditems, ditems.len() as int), scripts_from(citems, citems.len() as int)),
                        ),
                    },
                },
            },
        }
    }
}

/// Debian package adapter.
#[derive(Debug, Clone, Copy)]
pub struct DebAdapter;

/// The first member of `ar` answering to `a`, else to `b`.
fn find_either<'a>(ar: &'a ArArchive, a: &str, b: &str) -> (r: Option<&'a Vec<u8>>)
    ensures
        match (match member_data(ar.members_spec(), a@) {
            Some(d) => Some(d),
            None => member_data(ar.members_spec(), b@),
        }) {
            Some(d) => r matches Some(x) && x@ == d,
            None => r is None,
        },
{
    match ar.find_member(a) {
        Some(d) => Some(d),
        None => ar.find_member(b),
    }
}

/// Decompresses a member and parses it as a tar archive.
fn open_tar(member: Option<&Vec<u8>>, missing: &str) -> (r: PackageResult<TarArchive>)
    ensures
        match tar_stage(
            match member {
                Some(m) => Some(m@),
                None => None,
            },
            missing@,
        ) {
            Ok(items) => r matches Ok(t) && t.entries_spec() == items,
            Err(e) => r matches Err(x) && x@ == e,
        },
{
    let bytes = match member {
        Some(b) => b,
        None => {
            return Err(PackageError::format_error(missing));
        },
    };
    let tar_bytes = match decompress(bytes.as_slice()) {
        Ok(t) => t,
        Err(e) => {
            return Err(e);
        },
    };
    TarArchive::parse(tar_bytes.as_slice())
}

/// `s` without leading `./` prefixes.
fn strip_prefixes(s: &String) -> (r: String)
    ensures
        r@ == strip_dot_slash(s@),
{
    let v = crate::package::text::chars_of(s.as_str());
    let n = v.len();
    let mut i: usize = 0;
    assert(v@.subrange(0, n as int) =~= v@);
    while n - i >= 2 && v[i] == '.' && v[i + 1] == '/'
        invariant
            n == v@.len(),
            i <= n,
            strip_dot_slash(v@) == strip_dot_slash(v@.subrange(i as int, n as int)),
        decreases n - i,
    {
        assert(v@.subrange(i as int, n as int).subrange(2, n - i) =~= v@.subrange(i + 2, n as int));
        i = i + 2;
    }
    crate::package::text::string_of(&v, i, n)
}

/// Whether `p` names a maintainer script.
fn script_name(p: &String) -> (r: bool)
    ensures
        r == is_script_name(p@),
{
    crate::package::archive::ar::starts_with_chars(p, "post") || crate::package::archive::ar::starts_with_chars(
        p,
        "pre",
    ) || crate::package::types::str_eq(p, "config")
}

impl DebAdapter {
    /// A Debian package adapter.
    pub fn new() -> (r: Self) {
        DebAdapter
    }

    /// Reads a control file (`control_fields`); `InvalidFormat` when the
    /// name or version is missing.
    pub fn parse_control_file(&self, content: &str) -> (r: PackageResult<PackageMetadata>)
        ensures
            ({
                let f = control_fields(content@);
                &&& (f.name.len() == 0 || f.version.len() == 0) ==> (r matches Err(e) && e@
                    == ErrorSpec::InvalidFormat("Missing required fields in control file"@))
                &&& (f.name.len() > 0 && f.version.len() > 0) ==> (r matches Ok(m) && fields_of(m) == f)
            }),
    {
        parse_control_file(content)
    }
}

impl PackageAdapter for DebAdapter {
    /// Extracts metadata, scripts and files (`deb_extract`).
    fn extract(&self, data: &[u8]) -> (r: PackageResult<ExtractedPackage>)
        ensures
            match deb_extract(data@) {
                Ok((f, files, scripts)) => r matches Ok(p) && p.wf() && fields_of(p.metadata) == f && p.files@
                    == files && p.scripts@ == scripts,
                Err(e) => r matches Err(x) && x@ == e,
            },
    {
        let valid = match self.validate(data) {
            Ok(v) => v,
            Err(e) => {
                return Err(e);
            },
        };
        if !valid {
            return Err(PackageError::format_error(".deb file format validation failed"));
        }
        let ar = match ArArchive::parse(data) {
            Ok(a) => a,
            Err(e) => {
                return Err(e);
            },
        };
        let metadata = match self.parse_metadata(data) {
            Ok(m) => m,
            Err(e) => {
                return Err(e);
            },
        };
        let mut package = ExtractedPackage::new(metadata);
        let control = find_either(&ar, "control.tar.gz", "control.tar.xz");
        let control_archive = match open_tar(control, "Missing control archive in .deb") {
            Ok(t) => t,
            Err(e) => {
                return Err(e);
            },
        };
        let centries = control_archive.entries();
        let mut i: usize = 0;
        while i < centries.len()
            invariant
                i <= centries@.len(),
                package.wf(),
                fields_of(package.metadata) == deb_metadata(data@)->Ok_0,
                package.files@ == Map::<Seq<char>, Seq<u8>>::empty(),
                package.scripts@ == scripts_from(items_of(centries@), i as int),
            decreases centries@.len() - i,
        {
            let entry = &centries[i];
            let path = strip_prefixes(&entry.path);
            if script_name(&path) {
                match utf8_to_string(entry.data.as_slice()) {
                    Some(content) => {
                        package.add_script(path, content);
                    },
                    None => {},
                }
            }
            i = i + 1;
        }
        let data_entry = find_either3(&ar, "data.tar.gz", "data.tar.xz", "data.tar.bz2");
        let data_archive = match open_tar(data_entry, "Missing data archive in .deb") {
            Ok(t) => t,
            Err(e) => {
                return Err(e);
            },
        };
        let dentries = data_archive.entries();
        let mut j: usize = 0;
        while j < dentries.len()
            invariant
                j <= dentries@.len(),
                package.wf(),
                fields_of(package.metadata) == deb_metadata(data@)->Ok_0,
                package.scripts@ == scripts_from(items_of(centries@), centries@.len() as int),
                package.files@ == files_from(items_of(dentries@), j as int),
            decreases dentries@.len() - j,
        {
            let entry = &dentries[j];
            package.add_file(entry.path.clone(), entry.data.clone());
            j = j + 1;
        }
        Ok(package)
    }

    /// The metadata of a package file (`deb_metadata`).
    fn parse_metadata(&self, data: &[u8]) -> (r: PackageResult<PackageMetadata>)
        ensures
            match deb_metadata(data@) {
                Ok(f) => r matches Ok(m) && fields_of(m) == f,
                Err(e) => r matches Err(x) && x@ == e,
            },
    {
        let ar = match ArArchive::parse(data) {
            Ok(a) => a,
            Err(e) => {
                return Err(e);
            },
        };
        let control = find_either(&ar, "control.tar.gz", "control.tar.xz");
        let tar = match open_tar(control, "Missing control archive") {
            Ok(t) => t,
            Err(e) => {
                return Err(e);
            },
        };
        let entry = match tar.find_entry("control") {
            Some(e) => e,
            None => match tar.find_entry("./control") {
                Some(e) => e,
                None => {
                    return Err(PackageError::format_error("Missing control file in control archive"));
                },
            },
        };
        let content = match utf8_to_string(entry.data.as_slice()) {
            Some(c) => c,
            None => {
                return Err(PackageError::format_error("Invalid UTF-8 in control file"));
            },
        };
        self.parse_control_file(content.as_str())
    }

    /// Whether `data` starts with the `ar` magic.
    fn validate(&self, data: &[u8]) -> (r: PackageResult<bool>)
        ensures
            r == Ok::<bool, PackageError>(data@.len() >= 8 && data@.subrange(0, 8) == ar_magic()),
    {
        if data.len() < 8 {
            return Ok(false);
        }
        let magic: [u8; 8] = [0x21, 0x3c, 0x61, 0x72, 0x63, 0x68, 0x3e, 0x0a];
        let mut k: usize = 0;
        while k < 8
            invariant
                data@.len() >= 8,
                magic@ == ar_magic(),
                k <= 8,
                forall|j: int| 0 <= j < k ==> data@[j] == ar_magic()[j],
            decreases 8 - k,
        {
            if data[k] != magic[k] {
                assert(data@.subrange(0, 8)[k as int] != ar_magic()[k as int]);
                return Ok(false);
            }
            k = k + 1;
        }
        assert(data@.subrange(0, 8) =~= ar_magic());
        Ok(true)
    }

    /// The name of the format.
    fn format_name(&self) -> (r: &str)
        ensures
            r@ == "Debian Package (.deb)"@,
    {
        "Debian Package (.deb)"
    }
}

/// The first member of `ar` answering to `a`, else `b`, else `c`.
fn find_either3<'a>(ar: &'a ArArchive, a: &str, b: &str, c: &str) -> (r: Option<&'a Vec<u8>>)
    ensures
        match (match member_data(ar.members_spec(), a@) {
            Some(d) => Some(d),
            None => match member_data(ar.members_spec(), b@) {
                Some(d) => Some(d),
                None => member_data(ar.members_spec(), c@),
            },
        }) {
            Some(d) => r matches Some(x) && x@ == d,
            None => r is None,
        },
{
    match ar.find_member(a) {
        Some(d) => Some(d),
        None => match ar.find_member(b) {
            Some(d) => Some(d),
            None => ar.find_member(c),
        },
    }
}

} // verus!
