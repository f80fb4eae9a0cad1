//! POSIX tar archives: 512-byte headers (NUL-terminated name, octal mode
//! and size, type byte), each followed by its data padded to 512 bytes; a
//! zero block ends the archive.

use vstd::prelude::*;
use crate::package::{PackageError, PackageResult, invalid_format};
use crate::package::text::{
    number_field, nul_terminated_field, parse_nul_terminated_field, parse_number_field,
};
use crate::net::wire::copy_range;

verus! {

/// Size of a tar block.
pub const TAR_BLOCK_SIZE: usize = 512;

/// Kinds of tar entries.
#[derive(Debug, Clone, Copy, PartialEq, Eq, Structural)]
pub enum TarEntryType {
    File,
    HardLink,
    SymLink,
    CharDevice,
    BlockDevice,
    Directory,
    Fifo,
}

/// The kind of entry that a type byte names; unknown bytes are files.
pub open spec fn tar_entry_type(b: u8) -> TarEntryType {
    if b == 0x31 {
        TarEntryType::HardLink
    } else if b == 0x32 {
        TarEntryType::SymLink
    } else if b == 0x33 {
        TarEntryType::CharDevice
    } else if b == 0x34 {
        TarEntryType::BlockDevice
    } else if b == 0x35 {
        TarEntryType::Directory
    } else if b == 0x36 {
        TarEntryType::Fifo
    } else {
        TarEntryType::File
    }
}

impl TarEntryType {
    /// The kind of entry that a type byte names: `'1'` to `'6'` for links,
    /// devices, directories and FIFOs; anything else is a file.
    pub fn from_byte(b: u8) -> (r: Self)
        ensures
            r == tar_entry_type(b),
    {
        match b {
            0x31 => TarEntryType::HardLink,
            0x32 => TarEntryType::SymLink,
            0x33 => TarEntryType::CharDevice,
            0x34 => TarEntryType::BlockDevice,
            0x35 => TarEntryType::Directory,
            0x36 => TarEntryType::Fifo,
            _ => TarEntryType::File,
        }
    }
}

/// An entry of an archive.
#[derive(Debug, Clone)]
pub struct TarEntry {
    pub path: String,
    pub mode: u32,
    pub size: usize,
    pub entry_type: TarEntryType,
    pub data: Vec<u8>,
}

/// An entry as values.
pub struct TarItem {
    pub path: Seq<char>,
    pub mode: u32,
    pub size: usize,
    pub entry_type: TarEntryType,
    pub data: Seq<u8>,
}

impl TarEntry {
    /// The entry as values.
    pub open spec fn item(&self) -> TarItem {
        TarItem {
            path: self.path@,
            mode: self.mode,
            size: self.size,
            entry_type: self.entry_type,
            data: self.data@,
        }
    }
}

/// The entries of `v` as values.
pub open spec fn items_of(v: Seq<TarEntry>) -> Seq<TarItem> {
    v.map_values(|e: TarEntry| e.item())
}

/// Whether every byte of `b` is zero.
pub open spec fn all_zero(b: Seq<u8>) -> bool {
    forall|i: int| 0 <= i < b.len() ==> b[i] == 0
}

/// A number field of a header, with the archive's error messages.
pub open spec fn tar_number(bytes: Seq<u8>) -> Result<u64, Seq<char>> {
    match number_field(bytes, 8, true) {
        Ok(v) => Ok(v),
        Err(None) => Err("Invalid UTF-8 in TAR header"@),
        Err(Some(t)) => Err("Invalid octal number in TAR header: "@ + t),
    }
}

/// Data of `size` bytes padded to whole blocks.
pub open spec fn padded(size: nat) -> nat {
    ((size + 511) / 512 * 512) as nat
}

/// `prefix` in front of the entries of `r`; errors pass through.
pub open spec fn prepend_items(prefix: Seq<TarItem>, r: Result<Seq<TarItem>, Seq<char>>) -> Result<
    Seq<TarItem>,
    Seq<char>,
> {
    match r {
        Ok(rest) => Ok(prefix + rest),
        Err(e) => Err(e),
    }
}

/// The entries from `offset` on: entries follow while a whole header
/// fits and is not all zeros; a header field that cannot be read, or data
/// that runs past the end, is an error.
pub open spec fn tar_entries_from(data: Seq<u8>, offset: nat) -> Result<Seq<TarItem>, Seq<char>>
    decreases data.len() + 512 - offset,
{
    if offset + 512 > data.len() {
        Ok(Seq::empty())
    } else {
        let h = data.subrange(offset as int, offset + 512int);
        if all_zero(h) {
            Ok(Seq::empty())
        } else {
            match nul_terminated_field(h.subrange(0, 100)) {
                None => Err("Invalid UTF-8 in TAR header"@),
                Some(name) => match tar_number(h.subrange(100, 108)) {
                    Err(e) => Err(e),
                    Ok(mode) => match tar_number(h.subrange(124, 136)) {
                        Err(e) => Err(e),
                        Ok(size64) => {
                            let size = size64 as usize;
                            let start = offset + 512;
                            if size > 0 && start + size > data.len() {
                                Err("TAR entry size exceeds archive size"@)
                            } else {
                                let next = if size > 0 {
                                    start + padded(size as nat)
                                } else {
                                    start
                                };
                                let item = TarItem {
                                    path: name,
                                    mode: mode as u32,
                                    size,
                                    entry_type: tar_entry_type(h[156]),
                                    data: if size > 0 {
                                        data.subrange(start as int, start + size)
                                    } else {
                                        Seq::empty()
                                    },
                                };
                                prepend_items(seq![item], tar_entries_from(data, next as nat))
                            }
                        },
                    },
                },
            }
        }
    }
}

/// A parsed archive.
#[derive(Debug)]
pub struct TarArchive {
    entries: Vec<TarEntry>,
}

proof fn lemma_prepend_items_assoc(p: Seq<TarItem>, q: Seq<TarItem>, r: Result<Seq<TarItem>, Seq<char>>)
    ensures
        prepend_items(p, prepend_items(q, r)) == prepend_items(p + q, r),
{
    match r {
        Ok(rest) => {
            assert(p + (q + rest) =~= (p + q) + rest);
        },
        Err(_) => {},
    }
}

/// Whether every byte of `block` is zero.
fn is_zero_block(block: &[u8]) -> (r: bool)
    ensures
        r == all_zero(block@),
{
    let mut i: usize = 0;
    while i < block.len()
        invariant
            i <= block@.len(),
            forall|k: int| 0 <= k < i ==> block@[k] == 0,
        decreases block@.len() - i,
    {
        if block[i] != 0 {
            return false;
        }
        i = i + 1;
    }
    true
}

/// Reads a number field of a header.
fn read_number(h: &[u8], from: usize, to: usize) -> (r: PackageResult<u64>)
    requires
        from <= to <= h@.len(),
    ensures
        match tar_number(h@.subrange(from as int, to as int)) {
            Ok(v) => r == Ok::<u64, PackageError>(v),
            Err(m) => r is Err && invalid_format(r->Err_0, m),
        },
{
    let field = vstd::slice::slice_subrange(h, from, to);
    match parse_number_field(field, 8, true) {
        Ok(v) => Ok(v),
        Err(None) => Err(PackageError::format_error("Invalid UTF-8 in TAR header")),
        Err(Some(t)) => {
            let mut msg = String::from_str("Invalid octal number in TAR header: ");
            crate::text::append_str(&mut msg, t.as_str());
            Err(PackageError::InvalidFormat(msg))
        },
    }
}

impl TarArchive {
    /// The entries as values.
    pub closed spec fn entries_spec(&self) -> Seq<TarItem> {
        items_of(self.entries@)
    }

    /// Parses an archive (`tar_entries_from` at offset 0).
    pub fn parse(data: &[u8]) -> (r: PackageResult<Self>)
        ensures
            match tar_entries_from(data@, 0) {
                Ok(items) => r matches Ok(a) && a.entries_spec() == items,
                Err(msg) => r is Err && invalid_format(r->Err_0, msg),
            },
    {
        let mut entries: Vec<TarEntry> = Vec::new();
        let n = data.len();
        let mut offset: u128 = 0;
        assert(items_of(entries@) =~= Seq::<TarItem>::empty());
        while offset + 512 <= n as u128
            invariant
                n == data@.len(),
                offset <= data@.len() + 512,
                tar_entries_from(data@, 0) == prepend_items(items_of(entries@), tar_entries_from(data@, offset as nat)),
            ensures
                tar_entries_from(data@, 0) == prepend_items(items_of(entries@), tar_entries_from(data@, offset as nat)),
                tar_entries_from(data@, offset as nat) == Ok::<Seq<TarItem>, Seq<char>>(Seq::empty()),
            decreases data@.len() + 512 - offset,
        {
            let off = offset as usize;
            let h = vstd::slice::slice_subrange(data, off, off + TAR_BLOCK_SIZE);
            assert(h@ == data@.subrange(offset as int, offset + 512int));
            if is_zero_block(h) {
                break;
            }
            let name = match parse_nul_terminated_field(vstd::slice::slice_subrange(h, 0, 100)) {
                Some(n) => n,
                None => {
                    return Err(PackageError::format_error("Invalid UTF-8 in TAR header"));
                },
            };
            let mode = match read_number(h, 100, 108) {
                Ok(v) => v,
                Err(e) => {
                    return Err(e);
                },
            };
            let size64 = match read_number(h, 124, 136) {
                Ok(v) => v,
                Err(e) => {
                    return Err(e);
                },
            };
            let size = size64 as usize;
            let entry_type = TarEntryType::from_byte(h[156]);
            let start = off + TAR_BLOCK_SIZE;
            offset = offset + 512;
            let mut file_data: Vec<u8> = Vec::new();
            if size > 0 {
                if size > n - start {
                    return Err(PackageError::format_error("TAR entry size exceeds archive size"));
                }
                file_data = copy_range(data, start, start + size);
                let blocks = (size as u128 + 511) / 512;
                assert(blocks * 512 <= size + 511) by (nonlinear_arith)
                    requires
                        blocks == (size + 511) / 512,
                ;
                offset = offset + blocks * 512;
            }
            let ghost before = entries@;
            let entry = TarEntry { path: name, mode: mode as u32, size, entry_type, data: file_data };
            proof {
                assert(entry.data@ == (if size > 0 {
                    data@.subrange(start as int, start + size)
                } else {
                    Seq::<u8>::empty()
                }));
            }
            entries.push(entry);
            proof {
                assert(items_of(entries@) =~= items_of(before) + seq![entry.item()]);
                lemma_prepend_items_assoc(items_of(before), seq![entry.item()], tar_entries_from(data@, offset as nat));
            }
        }
        assert(items_of(entries@) + Seq::<TarItem>::empty() =~= items_of(entries@));
        Ok(TarArchive { entries })
    }

    /// The first entry whose path is `path` or ends with it.
    pub fn find_entry(&self, path: &str) -> (r: Option<&TarEntry>)
        ensures
            match first_entry_named(self.entries_spec(), path@) {
                Some(i) => r matches Some(e) && e.item() == self.entries_spec()[i],
                None => r is None,
            },
    {
        let mut i: usize = 0;
        while i < self.entries.len()
            invariant
                i <= self.entries@.len(),
                forall|k: int| 0 <= k < i ==> !entry_named(#[trigger] self.entries_spec()[k], path@),
            decreases self.entries@.len() - i,
        {
            let e = &self.entries[i];
            if ends_with_chars(&e.path, path) {
                proof {
                    lemma_first_entry_named(self.entries_spec(), path@, i as int);
                }
                return Some(e);
            }
            i = i + 1;
        }
        proof {
            lemma_first_entry_named(self.entries_spec(), path@, i as int);
        }
        None
    }

    /// The entries in archive order.
    pub fn entries(&self) -> (r: &Vec<TarEntry>)
        ensures
            items_of(r@) == self.entries_spec(),
    {
        &self.entries
    }

    /// The files of the archive by path; where a path occurs twice the
    /// later entry wins.
    pub fn extract_all(&self) -> (r: crate::package::types::FileMap)
        ensures
            r.wf(),
            r@ == files_of(self.entries_spec(), self.entries_spec().len() as int),
    {
        let mut files = crate::package::types::FileMap::new();
        let mut i: usize = 0;
        while i < self.entries.len()
            invariant
                i <= self.entries@.len(),
                files.wf(),
                files@ == files_of(self.entries_spec(), i as int),
            decreases self.entries@.len() - i,
        {
            let e = &self.entries[i];
            if e.entry_type == TarEntryType::File {
                files.insert(e.path.clone(), e.data.clone());
            }
            i = i + 1;
        }
        files
    }
}

/// The map from path to data of the file entries among the first `n`.
pub open spec fn files_of(items: Seq<TarItem>, n: int) -> Map<Seq<char>, Seq<u8>>
    decreases n,
{
    if n <= 0 {
        Map::empty()
    } else {
        let prev = files_of(items, n - 1);
        let e = items[n - 1];
        if e.entry_type == TarEntryType::File {
            prev.insert(e.path, e.data)
        } else {
            prev
        }
    }
}

/// Whether an entry answers to `path`: its path is `path` or ends with it.
pub open spec fn entry_named(e: TarItem, path: Seq<char>) -> bool {
    path.len() <= e.path.len() && e.path.subrange(e.path.len() - path.len(), e.path.len() as int) == path
}

/// The index of the first entry that answers to `path`.
pub open spec fn first_entry_named(es: Seq<TarItem>, path: Seq<char>) -> Option<int> {
    if exists|i: int| 0 <= i < es.len() && entry_named(es[i], path) {
        Some(choose|i: int| 0 <= i < es.len() && entry_named(es[i], path)
            && forall|k: int| 0 <= k < i ==> !entry_named(#[trigger] es[k], path))
    } else {
        None
    }
}

proof fn lemma_first_entry_named(es: Seq<TarItem>, path: Seq<char>, i: int)
    requires
        0 <= i <= es.len(),
        forall|k: int| 0 <= k < i ==> !entry_named(#[trigger] es[k], path),
        i == es.len() || entry_named(es[i], path),
    ensures
        first_entry_named(es, path) == (if i < es.len() {
            Some(i)
        } else {
            None::<int>
        }),
{
    if i < es.len() {
        let j = choose|j: int| 0 <= j < es.len() && entry_named(es[j], path)
            && forall|k: int| 0 <= k < j ==> !entry_named(#[trigger] es[k], path);
        assert(0 <= i < es.len() && entry_named(es[i], path)
            && forall|k: int| 0 <= k < i ==> !entry_named(#[trigger] es[k], path));
        if j < i {
            assert(!entry_named(es[j], path));
        }
        if i < j {
            assert(!entry_named(es[i], path));
        }
    } else {
        assert forall|j: int| 0 <= j < es.len() implies !entry_named(es[j], path) by {
            assert(!entry_named(es[j], path));
        }
    }
}

/// Whether `s` ends with `suffix`.
pub fn ends_with_chars(s: &String, suffix: &str) -> (r: bool)
    ensures
        r == (suffix@.len() <= s@.len() && s@.subrange(s@.len() - suffix@.len(), s@.len() as int) == suffix@),
{
    let a = crate::package::text::chars_of(s.as_str());
    let b = crate::package::text::chars_of(suffix);
    if b.len() > a.len() {
        return false;
    }
    let n = a.len();
    let off = n - b.len();
    let mut i: usize = 0;
    while i < b.len()
        invariant
            n == a@.len(),
            a@ == s@,
            b@ == suffix@,
            b@.len() <= a@.len(),
            off == a@.len() - b@.len(),
            i <= b@.len(),
            forall|k: int| 0 <= k < i ==> a@[off + k] == b@[k],
        decreases b@.len() - i,
    {
        assert(off + i < a@.len());
        if a[off + i] != b[i] {
            assert(s@.subrange(s@.len() - suffix@.len(), s@.len() as int)[i as int] != suffix@[i as int]);
            return false;
        }
        i = i + 1;
    }
    assert(s@.subrange(s@.len() - suffix@.len(), s@.len() as int) =~= suffix@);
    true
}

/// How entries lie in a tar archive. Where the entries from `offset` on
/// are read and there is one, its header is the 512 bytes at `offset` and
/// is not all zeros; its data are the `size` bytes right after the header,
/// within the archive; and the entries that follow start after the data
/// padded to whole 512-byte blocks (right after the header when there is
/// no data). Every entry read has as many data bytes as its header gives.
pub proof fn lemma_tar_entry_layout(data: Seq<u8>, offset: nat)
    ensures
        tar_entries_from(data, offset) matches Ok(es) ==> {
            &&& forall|i: int| 0 <= i < es.len() ==> (#[trigger] es[i]).data.len() == es[i].size
            &&& es.len() > 0 ==> {
                let start = offset + 512;
                let size = es[0].size as nat;
                let pad = padded(size);
                &&& offset + 512 <= data.len()
                &&& !all_zero(data.subrange(offset as int, start as int))
                &&& start + size <= data.len()
                &&& es[0].data == data.subrange(start as int, (start + size) as int)
                &&& pad % 512 == 0 && size <= pad < size + 512
                &&& tar_entries_from(data, start + pad) == Ok::<Seq<TarItem>, Seq<char>>(es.drop_first())
            }
        },
    decreases data.len() + 512 - offset,
{
    if offset + 512 <= data.len() {
        let h = data.subrange(offset as int, offset + 512int);
        if !all_zero(h) {
            if let Some(name) = nul_terminated_field(h.subrange(0, 100)) {
                if let Ok(mode) = tar_number(h.subrange(100, 108)) {
                    if let Ok(size64) = tar_number(h.subrange(124, 136)) {
                        let size = size64 as usize;
                        let start = offset + 512;
                        if !(size > 0 && start + size > data.len()) {
                            let next: nat = if size > 0 {
                                (start + padded(size as nat)) as nat
                            } else {
                                start
                            };
                            assert(padded(size as nat) % 512 == 0 && size <= padded(size as nat) < size + 512)
                                by (nonlinear_arith);
                            lemma_tar_entry_layout(data, next);
                            if let Ok(es) = tar_entries_from(data, offset) {
                                let rest = tar_entries_from(data, next)->Ok_0;
                                assert(es.drop_first() =~= rest);
                                if size == 0 {
                                    assert(es[0].data =~= data.subrange(start as int, (start + size) as int));
                                }
                                assert forall|i: int| 0 <= i < es.len() implies (#[trigger] es[i]).data.len() == es[i].size by {
                                    if i > 0 {
                                        assert(es[i] == rest[i - 1]);
                                    }
                                }
                            }
                        }
                    }
                }
            }
        }
    }
}

} // verus!
