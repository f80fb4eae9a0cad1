//! The `ar` archive format of `.deb` packages: the magic `!<arch>\n`, then
//! members, each a 60-byte header (name, time, owner, group, mode, size and
//! the bytes `` `\n ``) followed by its data, padded to an even offset.

use vstd::prelude::*;
use crate::package::{PackageError, PackageResult, invalid_format};
use crate::package::text::{
    number_field, parse_number_field, parse_text_field, text_field,
};
use crate::net::wire::copy_range;

verus! {

/// Size of a member header.
pub const AR_HEADER_SIZE: usize = 60;

/// Length of the global magic.
pub const AR_MAGIC_LEN: usize = 8;

/// The global magic `!<arch>\n`.
pub open spec fn ar_magic() -> Seq<u8> {
    seq![0x21u8, 0x3c, 0x61, 0x72, 0x63, 0x68, 0x3e, 0x0a]
}

/// A member of an archive.
#[derive(Debug, Clone)]
pub struct ArMember {
    pub name: String,
    pub timestamp: u64,
    pub owner_id: u32,
    pub group_id: u32,
    pub mode: u32,
    pub size: usize,
    pub data: Vec<u8>,
}

/// A member as values.
pub struct ArEntry {
    pub name: Seq<char>,
    pub timestamp: u64,
    pub owner_id: u32,
    pub group_id: u32,
    pub mode: u32,
    pub size: usize,
    pub data: Seq<u8>,
}

impl ArMember {
    /// The member as values.
    pub open spec fn entry(&self) -> ArEntry {
        ArEntry {
            name: self.name@,
            timestamp: self.timestamp,
            owner_id: self.owner_id,
            group_id: self.group_id,
            mode: self.mode,
            size: self.size,
            data: self.data@,
        }
    }
}

/// The members of `v` as values.
pub open spec fn entries_of(v: Seq<ArMember>) -> Seq<ArEntry> {
    v.map_values(|m: ArMember| m.entry())
}

/// The message for a header field that is not UTF-8.
pub open spec fn ar_utf8_message() -> Seq<char> {
    "Invalid UTF-8 in AR header"@
}

/// A number field of a member header, with the archive's error messages.
pub open spec fn ar_number(bytes: Seq<u8>, radix: nat) -> Result<u64, Seq<char>> {
    match number_field(bytes, radix, false) {
        Ok(v) => Ok(v),
        Err(None) => Err(ar_utf8_message()),
        Err(Some(_)) => Err(
            if radix == 10 {
                "Invalid decimal number in AR header"@
            } else {
                "Invalid octal number in AR header"@
            },
        ),
    }
}

/// The header fields of the member whose header is `h` (60 bytes), or the
/// message of the first field that cannot be read. The data is left empty.
pub open spec fn ar_header(h: Seq<u8>) -> Result<ArEntry, Seq<char>> {
    match text_field(h.subrange(0, 16)) {
        None => Err(ar_utf8_message()),
        Some(name) => match ar_number(h.subrange(16, 28), 10) {
            Err(e) => Err(e),
            Ok(timestamp) => match ar_number(h.subrange(28, 34), 10) {
                Err(e) => Err(e),
                Ok(owner) => match ar_number(h.subrange(34, 40), 10) {
                    Err(e) => Err(e),
                    Ok(group) => match ar_number(h.subrange(40, 48), 8) {
                        Err(e) => Err(e),
                        Ok(mode) => match ar_number(h.subrange(48, 58), 10) {
                            Err(e) => Err(e),
                            Ok(size) => Ok(
                                ArEntry {
                                    name,
                                    timestamp,
                                    owner_id: owner as u32,
                                    group_id: group as u32,
                                    mode: mode as u32,
                                    size: size as usize,
                                    data: Seq::empty(),
                                },
                            ),
                        },
                    },
                },
            },
        },
    }
}

/// `prefix` in front of the members of `r`; errors pass through.
pub open spec fn prepend_entries(prefix: Seq<ArEntry>, r: Result<Seq<ArEntry>, Seq<char>>) -> Result<
    Seq<ArEntry>,
    Seq<char>,
> {
    match r {
        Ok(rest) => Ok(prefix + rest),
        Err(e) => Err(e),
    }
}

/// The members from `offset` on: members follow while a whole header with
/// its closing bytes fits; a member whose data runs past the end is an
/// error, as is a header field that cannot be read.
pub open spec fn ar_members_from(data: Seq<u8>, offset: nat) -> Result<Seq<ArEntry>, Seq<char>>
    decreases data.len() + 1 - offset,
{
    if offset + 60 > data.len() {
        Ok(Seq::empty())
    } else {
        let h = data.subrange(offset as int, offset + 60int);
        if h[58] != 0x60 || h[59] != 0x0a {
            Ok(Seq::empty())
        } else {
            match ar_header(h) {
                Err(e) => Err(e),
                Ok(hdr) => {
                    let start = offset + 60;
                    if start + hdr.size > data.len() {
                        Err("AR archive member size exceeds file size"@)
                    } else {
                        let end = (start + hdr.size) as nat;
                        let next = if end % 2 == 1 {
                            end + 1
                        } else {
                            end
                        };
                        let e = ArEntry { data: data.subrange(start as int, end as int), ..hdr };
                        prepend_entries(seq![e], ar_members_from(data, next))
                    }
                },
            }
        }
    }
}

/// What parsing `data` as an archive gives.
pub open spec fn ar_parse(data: Seq<u8>) -> Result<Seq<ArEntry>, Seq<char>> {
    if data.len() < 8 {
        Err("File too small to be an AR archive"@)
    } else if data.subrange(0, 8) != ar_magic() {
        Err("Invalid AR archive magic number"@)
    } else {
        ar_members_from(data, 8)
    }
}

/// A parsed archive.
#[derive(Debug)]
pub struct ArArchive {
    members: Vec<ArMember>,
}

proof fn lemma_prepend_assoc(p: Seq<ArEntry>, q: Seq<ArEntry>, r: Result<Seq<ArEntry>, Seq<char>>)
    ensures
        prepend_entries(p, prepend_entries(q, r)) == prepend_entries(p + q, r),
{
    match r {
        Ok(rest) => {
            assert(p + (q + rest) =~= (p + q) + rest);
        },
        Err(_) => {},
    }
}

/// Reads a number field of a member header.
fn read_number(h: &[u8], from: usize, to: usize, radix: u32) -> (r: PackageResult<u64>)
    requires
        from <= to <= h@.len(),
        radix == 8 || radix == 10,
    ensures
        match ar_number(h@.subrange(from as int, to as int), radix as nat) {
            Ok(v) => r == Ok::<u64, PackageError>(v),
            Err(m) => r is Err && invalid_format(r->Err_0, m),
        },
{
    let field = vstd::slice::slice_subrange(h, from, to);
    match parse_number_field(field, radix, false) {
        Ok(v) => Ok(v),
        Err(None) => Err(PackageError::format_error("Invalid UTF-8 in AR header")),
        Err(Some(_)) => {
            if radix == 10 {
                Err(PackageError::format_error("Invalid decimal number in AR header"))
            } else {
                Err(PackageError::format_error("Invalid octal number in AR header"))
            }
        },
    }
}

/// Reads the fields of a member header.
fn read_header(h: &[u8]) -> (r: PackageResult<ArMember>)
    requires
        h@.len() == 60,
    ensures
        match ar_header(h@) {
            Ok(e) => r matches Ok(m) && m.entry() == e,
            Err(msg) => r is Err && invalid_format(r->Err_0, msg),
        },
{
    let name = match parse_text_field(vstd::slice::slice_subrange(h, 0, 16)) {
        Some(n) => n,
        None => {
            return Err(PackageError::format_error("Invalid UTF-8 in AR header"));
        },
    };
    let timestamp = match read_number(h, 16, 28, 10) {
        Ok(v) => v,
        Err(e) => {
            return Err(e);
        },
    };
    let owner = match read_number(h, 28, 34, 10) {
        Ok(v) => v,
        Err(e) => {
            return Err(e);
        },
    };
    let group = match read_number(h, 34, 40, 10) {
        Ok(v) => v,
        Err(e) => {
            return Err(e);
        },
    };
    let mode = match read_number(h, 40, 48, 8) {
        Ok(v) => v,
        Err(e) => {
            return Err(e);
        },
    };
    let size = match read_number(h, 48, 58, 10) {
        Ok(v) => v,
        Err(e) => {
            return Err(e);
        },
    };
    let m = ArMember {
        name,
        timestamp,
        owner_id: owner as u32,
        group_id: group as u32,
        mode: mode as u32,
        size: size as usize,
        data: Vec::new(),
    };
    assert(m.data@ =~= Seq::<u8>::empty());
    Ok(m)
}

impl ArArchive {
    /// The members as values.
    pub closed spec fn members_spec(&self) -> Seq<ArEntry> {
        entries_of(self.members@)
    }

    /// Parses an archive: the magic, then members while a whole header
    /// with its closing bytes fits (`ar_parse`).
    pub fn parse(data: &[u8]) -> (r: PackageResult<Self>)
        requires
            data@.len() + 2 <= usize::MAX,
        ensures
            match ar_parse(data@) {
                Ok(members) => r matches Ok(a) && a.members_spec() == members,
                Err(msg) => r is Err && invalid_format(r->Err_0, msg),
            },
    {
        if data.len() < AR_MAGIC_LEN {
            return Err(PackageError::format_error("File too small to be an AR archive"));
        }
        let magic: [u8; 8] = [0x21, 0x3c, 0x61, 0x72, 0x63, 0x68, 0x3e, 0x0a];
        let mut k: usize = 0;
        while k < 8
            invariant
                data@.len() >= 8,
                magic@ == ar_magic(),
                k <= 8,
                forall|j: int| 0 <= j < k ==> data@[j] == ar_magic()[j],
            decreases 8 - k,
        {
            if data[k] != magic[k] {
                assert(data@.subrange(0, 8)[k as int] != ar_magic()[k as int]);
                return Err(PackageError::format_error("Invalid AR archive magic number"));
            }
            k = k + 1;
        }
        assert(data@.subrange(0, 8) =~= ar_magic());
        let mut members: Vec<ArMember> = Vec::new();
        let mut offset: usize = AR_MAGIC_LEN;
        while offset <= data.len() && AR_HEADER_SIZE <= data.len() - offset
            invariant
                8 <= offset <= data@.len() + 1,
                data@.len() + 2 <= usize::MAX,
                ar_parse(data@) == prepend_entries(entries_of(members@), ar_members_from(data@, offset as nat)),
            ensures
                8 <= offset <= data@.len() + 1,
                ar_parse(data@) == prepend_entries(entries_of(members@), ar_members_from(data@, offset as nat)),
                ar_members_from(data@, offset as nat) == Ok::<Seq<ArEntry>, Seq<char>>(Seq::empty()),
            decreases data@.len() + 1 - offset,
        {
            let h = vstd::slice::slice_subrange(data, offset, offset + AR_HEADER_SIZE);
            assert(h@ == data@.subrange(offset as int, offset + 60int));
            if h[58] != 0x60 || h[59] != 0x0a {
                break;
            }
            let mut member = match read_header(h) {
                Ok(m) => m,
                Err(e) => {
                    return Err(e);
                },
            };
            offset = offset + AR_HEADER_SIZE;
            if member.size > data.len() - offset {
                return Err(PackageError::format_error("AR archive member size exceeds file size"));
            }
            let ghost before = members@;
            let ghost start = offset;
            member.data = copy_range(data, offset, offset + member.size);
            offset = offset + member.size;
            if offset % 2 == 1 {
                offset = offset + 1;
            }
            members.push(member);
            proof {
                let e = member.entry();
                assert(entries_of(members@) =~= entries_of(before) + seq![e]);
                lemma_prepend_assoc(entries_of(before), seq![e], ar_members_from(data@, offset as nat));
            }
        }
        assert(entries_of(members@) + Seq::<ArEntry>::empty() =~= entries_of(members@));
        Ok(ArArchive { members })
    }

    /// The first member whose name is `name` or starts with it.
    pub fn find_member(&self, name: &str) -> (r: Option<&Vec<u8>>)
        ensures
            match first_member_named(self.members_spec(), name@) {
                Some(i) => r matches Some(d) && d@ == self.members_spec()[i].data,
                None => r is None,
            },
    {
        let mut i: usize = 0;
        while i < self.members.len()
            invariant
                i <= self.members@.len(),
                forall|k: int| 0 <= k < i ==> !member_named(#[trigger] self.members_spec()[k], name@),
            decreases self.members@.len() - i,
        {
            let m = &self.members[i];
            if starts_with_chars(&m.name, name) {
                proof {
                    lemma_first_member_named(self.members_spec(), name@, i as int);
                }
                return Some(&m.data);
            }
            i = i + 1;
        }
        proof {
            lemma_first_member_named(self.members_spec(), name@, i as int);
        }
        None
    }

    /// The members in archive order.
    pub fn members(&self) -> (r: &Vec<ArMember>)
        ensures
            entries_of(r@) == self.members_spec(),
    {
        &self.members
    }
}

/// Whether a member answers to `name`: its name is `name` or starts with it.
pub open spec fn member_named(e: ArEntry, name: Seq<char>) -> bool {
    name.len() <= e.name.len() && e.name.subrange(0, name.len() as int) == name
}

/// The index of the first member that answers to `name`.
pub open spec fn first_member_named(ms: Seq<ArEntry>, name: Seq<char>) -> Option<int> {
    if exists|i: int| 0 <= i < ms.len() && member_named(ms[i], name) {
        Some(choose|i: int| 0 <= i < ms.len() && member_named(ms[i], name)
            && forall|k: int| 0 <= k < i ==> !member_named(#[trigger] ms[k], name))
    } else {
        None
    }
}

proof fn lemma_first_member_named(ms: Seq<ArEntry>, name: Seq<char>, i: int)
    requires
        0 <= i <= ms.len(),
        forall|k: int| 0 <= k < i ==> !member_named(#[trigger] ms[k], name),
        i == ms.len() || member_named(ms[i], name),
    ensures
        first_member_named(ms, name) == (if i < ms.len() {
            Some(i)
        } else {
            None::<int>
        }),
{
    if i < ms.len() {
        let j = choose|j: int| 0 <= j < ms.len() && member_named(ms[j], name)
            && forall|k: int| 0 <= k < j ==> !member_named(#[trigger] ms[k], name);
        assert(0 <= i < ms.len() && member_named(ms[i], name)
            && forall|k: int| 0 <= k < i ==> !member_named(#[trigger] ms[k], name));
        if j < i {
            assert(!member_named(ms[j], name));
        }
        if i < j {
            assert(!member_named(ms[i], name));
        }
    } else {
        assert forall|j: int| 0 <= j < ms.len() implies !member_named(ms[j], name) by {
            assert(!member_named(ms[j], name));
        }
    }
}

/// Whether `s` starts with `prefix`.
pub fn starts_with_chars(s: &String, prefix: &str) -> (r: bool)
    ensures
        r == (prefix@.len() <= s@.len() && s@.subrange(0, prefix@.len() as int) == prefix@),
{
    let a = crate::package::text::chars_of(s.as_str());
    let b = crate::package::text::chars_of(prefix);
    if b.len() > a.len() {
        return false;
    }
    let mut i: usize = 0;
    while i < b.len()
        invariant
            a@ == s@,
            b@ == prefix@,
            b@.len() <= a@.len(),
            i <= b@.len(),
            forall|k: int| 0 <= k < i ==> a@[k] == b@[k],
        decreases b@.len() - i,
    {
        if a[i] != b[i] {
            assert(s@.subrange(0, prefix@.len() as int)[i as int] != prefix@[i as int]);
            return false;
        }
        i = i + 1;
    }
    assert(s@.subrange(0, prefix@.len() as int) =~= prefix@);
    true
}

/// How members lie in an archive. Where the members from `offset` on are
/// read and there is one, its header is the 60 bytes at `offset`, closed
/// by the bytes 0x60 0x0a; its data are the `size` bytes right after the
/// header, within the archive; and the members that follow start after the
/// data, rounded up to an even offset. Every member read has as many data
/// bytes as its header gives.
pub proof fn lemma_ar_member_layout(data: Seq<u8>, offset: nat)
    ensures
        ar_members_from(data, offset) matches Ok(ms) ==> {
            &&& forall|i: int| 0 <= i < ms.len() ==> (#[trigger] ms[i]).data.len() == ms[i].size
            &&& ms.len() > 0 ==> {
                let start = offset + 60;
                let end = start + ms[0].size;
                let next = if end % 2 == 1 {
                    end + 1
                } else {
                    end
                };
                &&& end <= data.len()
                &&& data[offset + 58int] == 0x60 && data[offset + 59int] == 0x0a
                &&& ms[0].data == data.subrange(start as int, end as int)
                &&& next % 2 == 0 && end <= next <= end + 1
                &&& ar_members_from(data, next as nat) == Ok::<Seq<ArEntry>, Seq<char>>(ms.drop_first())
            }
        },
    decreases data.len() + 1 - offset,
{
    if offset + 60 <= data.len() {
        let h = data.subrange(offset as int, offset + 60int);
        if h[58] == 0x60 && h[59] == 0x0a {
            match ar_header(h) {
                Ok(hdr) => {
                    let start = offset + 60;
                    if start + hdr.size <= data.len() {
                        let end = (start + hdr.size) as nat;
                        let next: nat = if end % 2 == 1 {
                            end + 1
                        } else {
                            end
                        };
                        lemma_ar_member_layout(data, next);
                        if let Ok(ms) = ar_members_from(data, offset) {
                            let rest = ar_members_from(data, next)->Ok_0;
                            assert(ms.drop_first() =~= rest);
                            assert forall|i: int| 0 <= i < ms.len() implies (#[trigger] ms[i]).data.len() == ms[i].size by {
                                if i > 0 {
                                    assert(ms[i] == rest[i - 1]);
                                }
                            }
                        }
                    }
                },
                Err(_) => {},
            }
        }
    }
}

/// An archive reads only if it starts with the magic `!<arch>\n`; its
/// members are then those from offset 8 on.
pub proof fn lemma_ar_needs_magic(data: Seq<u8>)
    ensures
        ar_parse(data) is Ok ==> data.len() >= 8 && data.subrange(0, 8) == ar_magic() && ar_parse(data)
            == ar_members_from(data, 8),
{
}

} // verus!
