//! Debian control files: `Key: value` lines giving the package name,
//! version, architecture, description, maintainer, homepage, dependencies
//! and sizes.

use vstd::prelude::*;
use vstd::string::{StrSliceExecFns, StringExecFns};
use crate::package::{PackageError, PackageResult, invalid_format};
use crate::package::types::PackageMetadata;
use crate::package::text::{
    is_white_space, trim, trim_start, white_space, parse_unsigned, parse_unsigned_chars, string_of,
};

verus! {

/// The index of the first `c` in `s` at or after `from`, or `s.len()`.
pub open spec fn next_index_of(s: Seq<char>, from: nat, c: char) -> nat
    decreases s.len() - from,
{
    if from >= s.len() {
        s.len()
    } else if s[from as int] == c {
        from
    } else {
        next_index_of(s, from + 1, c)
    }
}

/// `next_index_of` lies between `from` and the end of `s`.
pub proof fn lemma_next_index_bounds(s: Seq<char>, from: nat, c: char)
    ensures
        from <= s.len() ==> from <= next_index_of(s, from, c) <= s.len(),
        from > s.len() ==> next_index_of(s, from, c) == s.len(),
    decreases s.len() - from,
{
    if from < s.len() && s[from as int] != c {
        lemma_next_index_bounds(s, from + 1, c);
    }
}

/// The lines of `s` from `from` on, as `str::lines` gives them: split at
/// `\n`, a `\r` before the `\n` dropped, no line after a final `\n`.
pub open spec fn lines_from(s: Seq<char>, from: nat) -> Seq<Seq<char>>
    decreases s.len() - from,
{
    if from >= s.len() {
        Seq::empty()
    } else {
        let e = next_index_of(s, from, '\n');
        proof {
            lemma_next_index_bounds(s, from, '\n');
        }
        if e < s.len() {
            let piece = s.subrange(from as int, e as int);
            let line = if piece.len() > 0 && piece.last() == '\r' {
                piece.drop_last()
            } else {
                piece
            };
            seq![line] + lines_from(s, e + 1)
        } else {
            seq![s.subrange(from as int, s.len() as int)]
        }
    }
}

/// The pieces of `s` between commas, from `from` on.
pub open spec fn comma_pieces(s: Seq<char>, from: nat) -> Seq<Seq<char>>
    decreases s.len() + 1 - from,
{
    if from > s.len() {
        Seq::empty()
    } else {
        let e = next_index_of(s, from, ',');
        proof {
            lemma_next_index_bounds(s, from, ',');
        }
        seq![s.subrange(from as int, e as int)] + comma_pieces(s, e + 1)
    }
}

/// The index of the first white space in `s`, or its length.
pub open spec fn first_white(s: Seq<char>) -> nat
    decreases s.len(),
{
    if s.len() == 0 {
        0
    } else if is_white_space(s[0]) {
        0
    } else {
        1 + first_white(s.drop_first())
    }
}

/// The first white-space-separated word of `s` (empty when there is none).
pub open spec fn first_word(s: Seq<char>) -> Seq<char> {
    let t = trim_start(s);
    t.subrange(0, first_white(t) as int)
}

/// The names of a `Depends` value: the first word of each comma-separated
/// piece, empty ones left out.
pub open spec fn depends_names(pieces: Seq<Seq<char>>) -> Seq<Seq<char>>
    decreases pieces.len(),
{
    if pieces.len() == 0 {
        Seq::empty()
    } else {
        let rest = depends_names(pieces.drop_last());
        let w = first_word(pieces.last());
        if w.len() > 0 {
            rest.push(w)
        } else {
            rest
        }
    }
}

/// The fields gathered from a control file.
#[verifier::ext_equal]
pub struct ControlFields {
    pub name: Seq<char>,
    pub version: Seq<char>,
    pub architecture: Seq<char>,
    pub description: Seq<char>,
    pub maintainer: Option<Seq<char>>,
    pub homepage: Option<Seq<char>>,
    pub dependencies: Seq<Seq<char>>,
    pub size: u64,
    pub installed_size: u64,
}

/// The fields before any line is read.
pub open spec fn initial_fields() -> ControlFields {
    ControlFields {
        name: Seq::empty(),
        version: Seq::empty(),
        architecture: "amd64"@,
        description: Seq::empty(),
        maintainer: None,
        homepage: None,
        dependencies: Seq::empty(),
        size: 0,
        installed_size: 0,
    }
}

/// A number value: the decimal number, or 0.
pub open spec fn number_or_zero(v: Seq<char>) -> u64 {
    match parse_unsigned(v, 10) {
        Some(n) => n,
        None => 0,
    }
}

/// What one line does to the fields: a non-empty line with a `:` sets the
/// field that its trimmed key names to its trimmed value (dependencies are
/// added to, sizes are numbers, the installed size in KiB); other lines
/// change nothing.
pub open spec fn apply_line(f: ControlFields, line: Seq<char>) -> ControlFields {
    let colon = next_index_of(line, 0, ':');
    if line.len() == 0 || colon >= line.len() {
        f
    } else {
        let key = trim(line.subrange(0, colon as int));
        let value = trim(line.subrange(colon + 1int, line.len() as int));
        if key == "Package"@ {
            ControlFields { name: value, ..f }
        } else if key == "Version"@ {
            ControlFields { version: value, ..f }
        } else if key == "Architecture"@ {
            ControlFields { architecture: value, ..f }
        } else if key == "Description"@ {
            ControlFields { description: value, ..f }
        } else if key == "Maintainer"@ {
            ControlFields { maintainer: Some(value), ..f }
        } else if key == "Homepage"@ {
            ControlFields { homepage: Some(value), ..f }
        } else if key == "Depends"@ {
            ControlFields { dependencies: f.dependencies + depends_names(comma_pieces(value, 0)), ..f }
        } else if key == "Size"@ {
            ControlFields { size: number_or_zero(value), ..f }
        } else if key == "Installed-Size"@ {
            ControlFields { installed_size: vstd::wrapping::u64_specs::wrapping_mul(number_or_zero(value), 1024), ..f }
        } else {
            f
        }
    }
}

/// The fields after reading `lines` in order.
pub open spec fn fold_lines(lines: Seq<Seq<char>>) -> ControlFields
    decreases lines.len(),
{
    if lines.len() == 0 {
        initial_fields()
    } else {
        apply_line(fold_lines(lines.drop_last()), lines.last())
    }
}

/// The fields of a control file.
pub open spec fn control_fields(content: Seq<char>) -> ControlFields {
    fold_lines(lines_from(content, 0))
}

/// The position of the first `c` in `v` at or after `from`, or its length.
pub fn find_char(v: &Vec<char>, from: usize, c: char) -> (r: usize)
    requires
        from <= v@.len(),
    ensures
        r == next_index_of(v@, from as nat, c),
        from <= r <= v@.len(),
{
    let mut i = from;
    while i < v.len() && v[i] != c
        invariant
            from <= i <= v@.len(),
            next_index_of(v@, from as nat, c) == next_index_of(v@, i as nat, c),
        decreases v@.len() - i,
    {
        i = i + 1;
    }
    i
}

/// The characters of `v` from `a` to `b`.
pub fn sub_chars(v: &Vec<char>, a: usize, b: usize) -> (r: Vec<char>)
    requires
        a <= b <= v@.len(),
    ensures
        r@ == v@.subrange(a as int, b as int),
{
    let mut out: Vec<char> = Vec::new();
    let mut i = a;
    while i < b
        invariant
            a <= i <= b <= v@.len(),
            out@ == v@.subrange(a as int, i as int),
        decreases b - i,
    {
        out.push(v[i]);
        i = i + 1;
        assert(out@ =~= v@.subrange(a as int, i as int));
    }
    out
}

/// `v` without leading and trailing white space.
pub fn trim_chars(v: &Vec<char>) -> (r: Vec<char>)
    ensures
        r@ == trim(v@),
        r@.len() <= v@.len(),
{
    let s = string_of(v, 0, v.len());
    assert(v@.subrange(0, v@.len() as int) =~= v@);
    let t = crate::package::text::trim_string(s.as_str());
    crate::package::text::chars_of(t.as_str())
}

/// Whether `v` holds exactly the characters of `s`.
pub fn chars_eq(v: &Vec<char>, s: &str) -> (r: bool)
    ensures
        r == (v@ == s@),
{
    let w = crate::package::text::chars_of(s);
    if v.len() != w.len() {
        return false;
    }
    let mut i: usize = 0;
    while i < v.len()
        invariant
            w@ == s@,
            v@.len() == w@.len(),
            i <= v@.len(),
            forall|k: int| 0 <= k < i ==> v@[k] == w@[k],
        decreases v@.len() - i,
    {
        if v[i] != w[i] {
            return false;
        }
        i = i + 1;
    }
    assert(v@ =~= w@);
    true
}

proof fn lemma_first_white(s: Seq<char>, i: int)
    requires
        0 <= i <= s.len(),
        forall|k: int| 0 <= k < i ==> !is_white_space(s[k]),
        i == s.len() || is_white_space(s[i]),
    ensures
        first_white(s) == i,
    decreases i,
{
    if i > 0 {
        lemma_first_white(s.drop_first(), i - 1);
    }
}

/// The first white-space-separated word of `v`.
pub fn first_word_of(v: &Vec<char>) -> (r: Vec<char>)
    ensures
        r@ == first_word(v@),
{
    let n = v.len();
    let mut i: usize = 0;
    while i < n && white_space(v[i])
        invariant
            n == v@.len(),
            i <= n,
            forall|k: int| 0 <= k < i ==> is_white_space(v@[k]),
        decreases n - i,
    {
        i = i + 1;
    }
    proof {
        crate::package::text::lemma_trim_start_pub(v@, i as int);
    }
    let ghost t = v@.subrange(i as int, n as int);
    let mut j = i;
    while j < n && !white_space(v[j])
        invariant
            n == v@.len(),
            i <= j <= n,
            forall|k: int| i <= k < j ==> !is_white_space(v@[k]),
        decreases n - j,
    {
        j = j + 1;
    }
    proof {
        assert forall|k: int| 0 <= k < j - i implies !is_white_space(t[k]) by {
            assert(t[k] == v@[k + i]);
        }
        if j < n {
            assert(t[j - i] == v@[j as int]);
        }
        lemma_first_white(t, j - i);
        assert(t.subrange(0, j - i) =~= v@.subrange(i as int, j as int));
    }
    sub_chars(v, i, j)
}

/// The names of a `Depends` value (`depends_names` of its comma pieces).
pub fn parse_depends(value: &Vec<char>) -> (r: Vec<String>)
    requires
        value@.len() < usize::MAX,
    ensures
        r@.map_values(|s: String| s@) == depends_names(comma_pieces(value@, 0)),
{
    let n = value.len();
    let mut out: Vec<String> = Vec::new();
    let mut pos: usize = 0;
    let ghost mut done: Seq<Seq<char>> = Seq::empty();
    while pos <= n
        invariant
            n == value@.len(),
            n < usize::MAX,
            comma_pieces(value@, 0) == done + comma_pieces(value@, pos as nat),
            out@.map_values(|s: String| s@) == depends_names(done),
            pos <= n + 1,
        decreases n + 1 - pos,
    {
        let e = find_char(value, pos, ',');
        let piece = sub_chars(value, pos, e);
        let w = first_word_of(&piece);
        let ghost old_done = done;
        proof {
            done = done.push(value@.subrange(pos as int, e as int));
            assert(done.drop_last() =~= old_done);
            assert(comma_pieces(value@, pos as nat) == seq![value@.subrange(pos as int, e as int)]
                + comma_pieces(value@, e as nat + 1));
            assert(old_done + comma_pieces(value@, pos as nat) =~= done + comma_pieces(value@, e as nat + 1));
        }
        if w.len() > 0 {
            let ws = string_of(&w, 0, w.len());
            assert(w@.subrange(0, w@.len() as int) =~= w@);
            out.push(ws);
        }
        assert(out@.map_values(|s: String| s@) =~= depends_names(done));
        pos = e + 1;
    }
    assert(done + Seq::<Seq<char>>::empty() =~= done);
    out
}


/// The fields that a metadata record holds.
pub open spec fn fields_of(m: PackageMetadata) -> ControlFields {
    ControlFields {
        name: m.name@,
        version: m.version@,
        architecture: m.architecture@,
        description: m.description@,
        maintainer: match m.maintainer {
            Some(s) => Some(s@),
            None => None,
        },
        homepage: match m.homepage {
            Some(s) => Some(s@),
            None => None,
        },
        dependencies: m.dependencies@.map_values(|s: String| s@),
        size: m.size,
        installed_size: m.installed_size,
    }
}

/// The decimal number in `v`, or 0.
fn number_value(v: &Vec<char>) -> (r: u64)
    ensures
        r == number_or_zero(v@),
{
    assert(v@.subrange(0, v@.len() as int) =~= v@);
    match parse_unsigned_chars(v, 0, v.len(), 10) {
        Some(n) => n,
        None => 0,
    }
}

/// The characters of `v` as a string.
fn to_string(v: &Vec<char>) -> (r: String)
    ensures
        r@ == v@,
{
    assert(v@.subrange(0, v@.len() as int) =~= v@);
    string_of(v, 0, v.len())
}

/// Applies one line of a control file to `m` (`apply_line`).
fn apply_line_to(m: &mut PackageMetadata, line: &Vec<char>)
    ensures
        fields_of(*final(m)) == apply_line(fields_of(*old(m)), line@),
{
    let n = line.len();
    if n == 0 {
        return;
    }
    let colon = find_char(line, 0, ':');
    if colon >= n {
        return;
    }
    let key = trim_chars(&sub_chars(line, 0, colon));
    let value = trim_chars(&sub_chars(line, colon + 1, n));
    let ghost f = fields_of(*old(m));
    if chars_eq(&key, "Package") {
        m.name = to_string(&value);
    } else if chars_eq(&key, "Version") {
        m.version = to_string(&value);
    } else if chars_eq(&key, "Architecture") {
        m.architecture = to_string(&value);
    } else if chars_eq(&key, "Description") {
        m.description = to_string(&value);
    } else if chars_eq(&key, "Maintainer") {
        m.maintainer = Some(to_string(&value));
    } else if chars_eq(&key, "Homepage") {
        m.homepage = Some(to_string(&value));
    } else if chars_eq(&key, "Depends") {
        assert(value@.len() <= line@.len());
        let mut names = parse_depends(&value);
        let ghost before = m.dependencies@;
        let ghost added = names@;
        m.dependencies.append(&mut names);
        assert(m.dependencies@.map_values(|s: String| s@) =~= before.map_values(|s: String| s@)
            + added.map_values(|s: String| s@));
    } else if chars_eq(&key, "Size") {
        m.size = number_value(&value);
    } else if chars_eq(&key, "Installed-Size") {
        m.installed_size = number_value(&value).wrapping_mul(1024);
    }
    assert(fields_of(*m) =~= apply_line(f, line@));
}

/// Reads the fields of a control file (`control_fields`).
pub fn read_control_fields(content: &str) -> (r: PackageMetadata)
    ensures
        fields_of(r) == control_fields(content@),
{
    let v = crate::package::text::chars_of(content);
    let n = v.len();
    let mut m = PackageMetadata::new(String::new(), String::new(), String::from_str("amd64"));
    let mut pos: usize = 0;
    let ghost mut done: Seq<Seq<char>> = Seq::empty();
    assert(fields_of(m) =~= initial_fields());
    while pos < n
        invariant
            n == v@.len(),
            v@ == content@,
            pos <= n,
            lines_from(v@, 0) == done + lines_from(v@, pos as nat),
            fields_of(m) == fold_lines(done),
        decreases n - pos,
    {
        let e = find_char(&v, pos, '\n');
        let mut line_end = e;
        if e < n && e > pos && v[e - 1] == '\r' {
            line_end = e - 1;
        }
        let line = sub_chars(&v, pos, line_end);
        let ghost old_done = done;
        let ghost old_pos = pos;
        proof {
            done = done.push(line@);
            assert(done.drop_last() =~= old_done);
            if e < n {
                let piece = v@.subrange(pos as int, e as int);
                if piece.len() > 0 && piece.last() == '\r' {
                    assert(piece.drop_last() =~= line@);
                } else {
                    assert(piece =~= line@);
                }
                assert(lines_from(v@, pos as nat) == seq![line@] + lines_from(v@, e as nat + 1));
            } else {
                assert(lines_from(v@, pos as nat) == seq![line@]);
                assert(lines_from(v@, n as nat) =~= Seq::<Seq<char>>::empty());
            }
        }
        apply_line_to(&mut m, &line);
        if e < n {
            pos = e + 1;
        } else {
            pos = n;
        }
        assert(old_done + lines_from(v@, old_pos as nat) =~= done + lines_from(v@, pos as nat)) by {
            if e < n {
                assert(old_done + (seq![line@] + lines_from(v@, e as nat + 1)) =~= done + lines_from(v@, e as nat + 1));
            } else {
                assert(old_done + seq![line@] =~= done + Seq::<Seq<char>>::empty());
            }
        }
    }
    assert(done + Seq::<Seq<char>>::empty() =~= done);
    m
}

/// Reads a control file: the metadata it gives, or `InvalidFormat` when
/// the package name or version is missing or empty.
pub fn parse_control_file(content: &str) -> (r: PackageResult<PackageMetadata>)
    ensures
        ({
            let f = control_fields(content@);
            &&& (f.name.len() == 0 || f.version.len() == 0) ==> r is Err && invalid_format(
                r->Err_0,
                "Missing required fields in control file"@,
            )
            &&& (f.name.len() > 0 && f.version.len() > 0) ==> (r matches Ok(m) && fields_of(m) == f)
        }),
{
    let m = read_control_fields(content);
    if m.name.as_str().unicode_len() == 0 || m.version.as_str().unicode_len() == 0 {
        return Err(PackageError::format_error("Missing required fields in control file"));
    }
    Ok(m)
}

/// In `k + ":" + v` where `k` holds no colon, the first colon at or after
/// any `from` up to `k.len()` is the one after `k`.
proof fn lemma_colon_after_key(k: Seq<char>, v: Seq<char>, from: nat)
    requires
        from <= k.len(),
        forall|i: int| 0 <= i < k.len() ==> k[i] != ':',
    ensures
        next_index_of(k + seq![':'] + v, from, ':') == k.len(),
    decreases k.len() - from,
{
    let line = k + seq![':'] + v;
    if from < k.len() {
        assert(line[from as int] == k[from as int]);
        lemma_colon_after_key(k, v, from + 1);
    } else {
        assert(line[from as int] == ':');
    }
}

/// A control line `Key: value` sets the field that its key names. For a
/// line made of a key without a colon, a colon and a value: when the
/// trimmed key is `Package`, `Version`, `Architecture` or `Description`,
/// that field becomes the trimmed value; when it is `Maintainer` or
/// `Homepage`, that field becomes the trimmed value; every other field
/// keeps its value. A line without a colon changes nothing.
pub proof fn lemma_control_line_sets_field(f: ControlFields, k: Seq<char>, v: Seq<char>)
    requires
        forall|i: int| 0 <= i < k.len() ==> k[i] != ':',
    ensures
        ({
            let g = apply_line(f, k + seq![':'] + v);
            let value = trim(v);
            &&& trim(k) == "Package"@ ==> g == ControlFields { name: value, ..f }
            &&& trim(k) == "Version"@ ==> g == ControlFields { version: value, ..f }
            &&& trim(k) == "Architecture"@ ==> g == ControlFields { architecture: value, ..f }
            &&& trim(k) == "Description"@ ==> g == ControlFields { description: value, ..f }
            &&& trim(k) == "Maintainer"@ ==> g == ControlFields { maintainer: Some(value), ..f }
            &&& trim(k) == "Homepage"@ ==> g == ControlFields { homepage: Some(value), ..f }
            &&& trim(k) == "Size"@ ==> g == ControlFields { size: number_or_zero(value), ..f }
            &&& trim(k) == "Installed-Size"@ ==> g == ControlFields {
                installed_size: vstd::wrapping::u64_specs::wrapping_mul(number_or_zero(value), 1024),
                ..f
            }
            &&& trim(k) == "Depends"@ ==> g == ControlFields { dependencies: g.dependencies, ..f }
                && g.dependencies.len() >= f.dependencies.len() && g.dependencies.subrange(
                0,
                f.dependencies.len() as int,
            ) == f.dependencies
            &&& (trim(k) != "Package"@ && trim(k) != "Version"@ && trim(k) != "Architecture"@ && trim(k)
                != "Description"@ && trim(k) != "Maintainer"@ && trim(k) != "Homepage"@ && trim(k) != "Depends"@
                && trim(k) != "Size"@ && trim(k) != "Installed-Size"@) ==> g == f
        }),
        apply_line(f, k) == f,
{
    let line = k + seq![':'] + v;
    lemma_colon_after_key(k, v, 0);
    assert(line.subrange(0, k.len() as int) =~= k);
    assert(line.subrange(k.len() + 1int, line.len() as int) =~= v);
    let g = apply_line(f, line);
    if trim(k) == "Depends"@ {
        reveal_strlit("Depends");
        assert(g.dependencies.subrange(0, f.dependencies.len() as int) =~= f.dependencies);
    }
    lemma_next_index_bounds(k, 0, ':');
    if k.len() > 0 {
        lemma_no_colon(k, 0);
    }
    reveal_strlit("Package");
    reveal_strlit("Version");
    reveal_strlit("Architecture");
    reveal_strlit("Description");
    reveal_strlit("Maintainer");
    reveal_strlit("Homepage");
    assert("Version"@[0] != "Package"@[0]);
    reveal_strlit("Depends");
    reveal_strlit("Size");
    reveal_strlit("Installed-Size");
    assert("Depends"@[0] != "Package"@[0]);
    assert("Depends"@[0] != "Version"@[0]);
    assert("Depends"@.len() != "Architecture"@.len());
    assert("Depends"@.len() != "Description"@.len());
    assert("Depends"@.len() != "Maintainer"@.len());
    assert("Depends"@.len() != "Homepage"@.len());
    assert("Size"@.len() != "Package"@.len());
    assert("Size"@.len() != "Version"@.len());
    assert("Size"@.len() != "Architecture"@.len());
    assert("Size"@.len() != "Description"@.len());
    assert("Size"@.len() != "Maintainer"@.len());
    assert("Size"@.len() != "Homepage"@.len());
    assert("Size"@.len() != "Depends"@.len());
    assert("Installed-Size"@.len() != "Package"@.len());
    assert("Installed-Size"@.len() != "Version"@.len());
    assert("Installed-Size"@.len() != "Architecture"@.len());
    assert("Installed-Size"@.len() != "Description"@.len());
    assert("Installed-Size"@.len() != "Maintainer"@.len());
    assert("Installed-Size"@.len() != "Homepage"@.len());
    assert("Installed-Size"@.len() != "Depends"@.len());
    assert("Installed-Size"@.len() != "Size"@.len());
    assert("Architecture"@.len() != "Package"@.len());
    assert("Architecture"@.len() != "Version"@.len());
    assert("Description"@.len() != "Package"@.len());
    assert("Description"@.len() != "Version"@.len());
    assert("Description"@.len() != "Architecture"@.len());
    assert("Maintainer"@.len() != "Package"@.len());
    assert("Maintainer"@.len() != "Version"@.len());
    assert("Maintainer"@.len() != "Architecture"@.len());
    assert("Maintainer"@.len() != "Description"@.len());
    assert("Homepage"@.len() != "Package"@.len());
    assert("Homepage"@.len() != "Version"@.len());
    assert("Homepage"@.len() != "Architecture"@.len());
    assert("Homepage"@.len() != "Description"@.len());
    assert("Homepage"@.len() != "Maintainer"@.len());
}

/// In a sequence without a colon the search for one runs to the end.
proof fn lemma_no_colon(k: Seq<char>, from: nat)
    requires
        from <= k.len(),
        forall|i: int| 0 <= i < k.len() ==> k[i] != ':',
    ensures
        next_index_of(k, from, ':') == k.len(),
    decreases k.len() - from,
{
    if from < k.len() {
        lemma_no_colon(k, from + 1);
    }
}

} // verus!
