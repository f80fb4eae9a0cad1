//! Text fields of archive headers: Unicode white space, trimming, and
//! unsigned numbers written in decimal or octal.

use vstd::prelude::*;
use vstd::string::StrSliceExecFns;
use vstd::utf8::{valid_utf8, decode_utf8};
use crate::text::utf8_to_string;

verus! {

/// The characters with the Unicode `White_Space` property.
pub open spec fn is_white_space(c: char) -> bool {
    let v = c as u32;
    ||| 9 <= v <= 13
    ||| v == 32
    ||| v == 0x85
    ||| v == 0xA0
    ||| v == 0x1680
    ||| 0x2000 <= v <= 0x200A
    ||| v == 0x2028
    ||| v == 0x2029
    ||| v == 0x202F
    ||| v == 0x205F
    ||| v == 0x3000
}

/// Whether `c` has the Unicode `White_Space` property.
pub fn white_space(c: char) -> (r: bool)
    ensures
        r == is_white_space(c),
{
    let v = c as u32;
    (9 <= v && v <= 13) || v == 32 || v == 0x85 || v == 0xA0 || v == 0x1680 || (0x2000 <= v && v
        <= 0x200A) || v == 0x2028 || v == 0x2029 || v == 0x202F || v == 0x205F || v == 0x3000
}

/// `s` without its leading white space.
pub open spec fn trim_start(s: Seq<char>) -> Seq<char>
    decreases s.len(),
{
    if s.len() > 0 && is_white_space(s[0]) {
        trim_start(s.drop_first())
    } else {
        s
    }
}

/// `s` without its trailing white space.
pub open spec fn trim_end(s: Seq<char>) -> Seq<char>
    decreases s.len(),
{
    if s.len() > 0 && is_white_space(s.last()) {
        trim_end(s.drop_last())
    } else {
        s
    }
}

/// `s` without leading and trailing white space.
pub open spec fn trim(s: Seq<char>) -> Seq<char> {
    trim_end(trim_start(s))
}

/// `s` without its trailing NUL characters.
pub open spec fn trim_end_nul(s: Seq<char>) -> Seq<char>
    decreases s.len(),
{
    if s.len() > 0 && s.last() == '\0' {
        trim_end_nul(s.drop_last())
    } else {
        s
    }
}

proof fn lemma_trim_start(s: Seq<char>, i: int)
    requires
        0 <= i <= s.len(),
        forall|k: int| 0 <= k < i ==> is_white_space(s[k]),
        i == s.len() || !is_white_space(s[i]),
    ensures
        trim_start(s) == s.subrange(i, s.len() as int),
    decreases i,
{
    if i > 0 {
        lemma_trim_start(s.drop_first(), i - 1);
        assert(s.drop_first().subrange(i - 1, s.len() - 1) =~= s.subrange(i, s.len() as int));
    } else {
        assert(s.subrange(0, s.len() as int) =~= s);
    }
}

proof fn lemma_trim_end(s: Seq<char>, j: int)
    requires
        0 <= j <= s.len(),
        forall|k: int| j <= k < s.len() ==> is_white_space(s[k]),
        j == 0 || !is_white_space(s[j - 1]),
    ensures
        trim_end(s) == s.subrange(0, j),
    decreases s.len() - j,
{
    if j < s.len() {
        lemma_trim_end(s.drop_last(), j);
        assert(s.drop_last().subrange(0, j) =~= s.subrange(0, j));
    } else {
        assert(s.subrange(0, s.len() as int) =~= s);
    }
}

proof fn lemma_trim_end_nul(s: Seq<char>, j: int)
    requires
        0 <= j <= s.len(),
        forall|k: int| j <= k < s.len() ==> s[k] == '\0',
        j == 0 || s[j - 1] != '\0',
    ensures
        trim_end_nul(s) == s.subrange(0, j),
    decreases s.len() - j,
{
    if j < s.len() {
        lemma_trim_end_nul(s.drop_last(), j);
        assert(s.drop_last().subrange(0, j) =~= s.subrange(0, j));
    } else {
        assert(s.subrange(0, s.len() as int) =~= s);
    }
}

/// `trim_start` of `s` is `s` from the first character that is not white
/// space.
pub proof fn lemma_trim_start_pub(s: Seq<char>, i: int)
    requires
        0 <= i <= s.len(),
        forall|k: int| 0 <= k < i ==> is_white_space(s[k]),
        i == s.len() || !is_white_space(s[i]),
    ensures
        trim_start(s) == s.subrange(i, s.len() as int),
{
    lemma_trim_start(s, i);
}

/// The characters of `s`.
pub fn chars_of(s: &str) -> (r: Vec<char>)
    ensures
        r@ == s@,
{
    let n = s.unicode_len();
    let mut out: Vec<char> = Vec::new();
    let mut i: usize = 0;
    while i < n
        invariant
            n == s@.len(),
            i <= n,
            out@ == s@.subrange(0, i as int),
        decreases n - i,
    {
        let c = s.get_char(i);
        out.push(c);
        i = i + 1;
        assert(out@ =~= s@.subrange(0, i as int));
    }
    assert(out@ =~= s@);
    out
}

/// The characters of `v` from `from` to `to` as a string.
pub fn string_of(v: &Vec<char>, from: usize, to: usize) -> (r: String)
    requires
        from <= to <= v@.len(),
    ensures
        r@ == v@.subrange(from as int, to as int),
{
    let mut out = String::new();
    let mut i = from;
    while i < to
        invariant
            from <= i <= to <= v@.len(),
            out@ == v@.subrange(from as int, i as int),
        decreases to - i,
    {
        push_char(&mut out, v[i]);
        i = i + 1;
        assert(out@ =~= v@.subrange(from as int, i as int));
    }
    out
}

/// Appends one character.
///
/// Trusted: calls `String::push`, documented to append the character to
/// the end of the string.
#[verifier::external_body]
pub(crate) fn push_char(s: &mut String, c: char)
    ensures
        final(s)@ == old(s)@.push(c),
{
    s.push(c);
}

/// The bounds `(i, j)` of `v` without leading and trailing white space.
fn trim_bounds(v: &Vec<char>) -> (r: (usize, usize))
    ensures
        r.0 <= r.1 <= v@.len(),
        trim(v@) == v@.subrange(r.0 as int, r.1 as int),
{
    let n = v.len();
    let mut i: usize = 0;
    while i < n && white_space(v[i])
        invariant
            n == v@.len(),
            i <= n,
            forall|k: int| 0 <= k < i ==> is_white_space(v@[k]),
        decreases n - i,
    {
        i = i + 1;
    }
    proof {
        lemma_trim_start(v@, i as int);
    }
    let ghost t = v@.subrange(i as int, n as int);
    let mut j: usize = n;
    while j > i && white_space(v[j - 1])
        invariant
            n == v@.len(),
            i <= j <= n,
            forall|k: int| j <= k < n ==> is_white_space(v@[k]),
        decreases j - i,
    {
        j = j - 1;
    }
    proof {
        assert forall|k: int| (j - i) <= k < t.len() implies is_white_space(t[k]) by {
            assert(t[k] == v@[k + i]);
        }
        if j > i {
            assert(t[j - i - 1] == v@[j - 1]);
        }
        lemma_trim_end(t, j - i);
        assert(t.subrange(0, j - i) =~= v@.subrange(i as int, j as int));
    }
    (i, j)
}

/// `s` without leading and trailing white space.
pub fn trim_string(s: &str) -> (r: String)
    ensures
        r@ == trim(s@),
        r@.len() <= s@.len(),
{
    let v = chars_of(s);
    let (i, j) = trim_bounds(&v);
    string_of(&v, i, j)
}

/// The value of a digit character: `0`-`9`, then letters of either case
/// from 10 on.
pub open spec fn char_digit(c: char) -> Option<nat> {
    if '0' <= c && c <= '9' {
        Some((c as int - '0' as int) as nat)
    } else if 'a' <= c && c <= 'z' {
        Some((c as int - 'a' as int + 10) as nat)
    } else if 'A' <= c && c <= 'Z' {
        Some((c as int - 'A' as int + 10) as nat)
    } else {
        None
    }
}

/// The value of a digit character in `radix`, if it is one.
pub open spec fn digit_of(c: char, radix: nat) -> Option<nat> {
    match char_digit(c) {
        Some(v) => if v < radix {
            Some(v)
        } else {
            None
        },
        None => None,
    }
}

/// Every character of `s` is a digit in `radix`.
pub open spec fn all_digits(s: Seq<char>, radix: nat) -> bool {
    forall|i: int| 0 <= i < s.len() ==> (#[trigger] digit_of(s[i], radix)) is Some
}

/// The number that the digits `s` write in `radix`.
pub open spec fn digits_value(s: Seq<char>, radix: nat) -> nat
    decreases s.len(),
{
    if s.len() == 0 {
        0
    } else {
        digits_value(s.drop_last(), radix) * radix + match digit_of(s.last(), radix) {
            Some(v) => v,
            None => 0,
        }
    }
}

/// What `u64::from_str_radix` gives for `s`: an optional `+` followed by
/// at least one digit, with a value that fits in 64 bits.
pub open spec fn parse_unsigned(s: Seq<char>, radix: nat) -> Option<u64> {
    let d = if s.len() > 0 && s[0] == '+' {
        s.drop_first()
    } else {
        s
    };
    if d.len() > 0 && all_digits(d, radix) && digits_value(d, radix) <= u64::MAX {
        Some(digits_value(d, radix) as u64)
    } else {
        None
    }
}

proof fn lemma_digits_value_grows(s: Seq<char>, radix: nat, k: int)
    requires
        radix >= 1,
        0 <= k <= s.len(),
        all_digits(s, radix),
    ensures
        digits_value(s.take(k), radix) <= digits_value(s, radix),
    decreases s.len() - k,
{
    if k < s.len() {
        let t = s.drop_last();
        assert(all_digits(t, radix)) by {
            assert forall|i: int| 0 <= i < t.len() implies (#[trigger] digit_of(t[i], radix)) is Some by {
                assert(t[i] == s[i]);
            }
        }
        lemma_digits_value_grows(t, radix, k);
        assert(t.take(k) =~= s.take(k));
        assert(digits_value(t, radix) <= digits_value(t, radix) * radix) by (nonlinear_arith)
            requires
                radix >= 1,
        ;
    } else {
        assert(s.take(k) =~= s);
    }
}

/// The number written in `v[from..to]` in `radix` (2 to 16), as
/// `u64::from_str_radix` reads it; `None` where it reads none.
pub fn parse_unsigned_chars(v: &Vec<char>, from: usize, to: usize, radix: u32) -> (r: Option<u64>)
    requires
        from <= to <= v@.len(),
        2 <= radix <= 16,
    ensures
        r == parse_unsigned(v@.subrange(from as int, to as int), radix as nat),
{
    let ghost s = v@.subrange(from as int, to as int);
    let mut start = from;
    if from < to && v[from] == '+' {
        start = from + 1;
    }
    let ghost d = v@.subrange(start as int, to as int);
    assert(d =~= (if s.len() > 0 && s[0] == '+' {
        s.drop_first()
    } else {
        s
    }));
    if start == to {
        return None;
    }
    let mut value: u64 = 0;
    let mut i = start;
    while i < to
        invariant
            start <= i <= to <= v@.len(),
            d == v@.subrange(start as int, to as int),
            s == v@.subrange(from as int, to as int),
            d == (if s.len() > 0 && s[0] == '+' {
                s.drop_first()
            } else {
                s
            }),
            d.len() > 0,
            2 <= radix <= 16,
            forall|k: int| 0 <= k < i - start ==> (#[trigger] digit_of(d[k], radix as nat)) is Some,
            value == digits_value(d.take(i - start), radix as nat),
        decreases to - i,
    {
        let c = v[i];
        let ghost k = i - start;
        assert(d[k] == c);
        let dv: u32 = if '0' <= c && c <= '9' {
            c as u32 - '0' as u32
        } else if 'a' <= c && c <= 'z' {
            c as u32 - 'a' as u32 + 10
        } else if 'A' <= c && c <= 'Z' {
            c as u32 - 'A' as u32 + 10
        } else {
            36
        };
        if dv >= radix {
            assert(digit_of(d[k], radix as nat) is None);
            assert(!all_digits(d, radix as nat));
            return None;
        }
        assert(digit_of(c, radix as nat) == Some(dv as nat));
        let digit = dv as u64;
        assert(d.take(k + 1).drop_last() =~= d.take(k));
        assert(digits_value(d.take(k + 1), radix as nat) == value * radix + digit);
        let m = value.checked_mul(radix as u64);
        if m.is_none() {
            proof {
                assert(all_digits(d.take(k + 1), radix as nat)) by {
                    assert forall|j: int| 0 <= j < d.take(k + 1).len() implies (#[trigger] digit_of(
                        d.take(k + 1)[j],
                        radix as nat,
                    )) is Some by {
                        assert(d.take(k + 1)[j] == d[j]);
                    }
                }
                if all_digits(d, radix as nat) {
                    lemma_digits_value_grows(d, radix as nat, k + 1);
                }
            }
            return None;
        }
        let a = m.unwrap().checked_add(digit);
        if a.is_none() {
            proof {
                assert(all_digits(d.take(k + 1), radix as nat)) by {
                    assert forall|j: int| 0 <= j < d.take(k + 1).len() implies (#[trigger] digit_of(
                        d.take(k + 1)[j],
                        radix as nat,
                    )) is Some by {
                        assert(d.take(k + 1)[j] == d[j]);
                    }
                }
                if all_digits(d, radix as nat) {
                    lemma_digits_value_grows(d, radix as nat, k + 1);
                }
            }
            return None;
        }
        value = a.unwrap();
        i = i + 1;
    }
    assert(d.take(d.len() as int) =~= d);
    Some(value)
}


/// A number field of a header: its bytes must be UTF-8; what is left after
/// dropping trailing NULs (where `strip_nul`) and surrounding white space
/// is empty (zero) or a number in `radix`. `Err(None)` for bytes that are
/// not UTF-8, `Err(Some(t))` for a text `t` that is no number.
pub open spec fn number_field(bytes: Seq<u8>, radix: nat, strip_nul: bool) -> Result<u64, Option<Seq<char>>> {
    if !valid_utf8(bytes) {
        Err(None)
    } else {
        let c = decode_utf8(bytes);
        let t = trim(
            if strip_nul {
                trim_end_nul(c)
            } else {
                c
            },
        );
        if t.len() == 0 {
            Ok(0)
        } else {
            match parse_unsigned(t, radix) {
                Some(v) => Ok(v),
                None => Err(Some(t)),
            }
        }
    }
}

/// A text field of a header: UTF-8 bytes with surrounding white space
/// dropped.
pub open spec fn text_field(bytes: Seq<u8>) -> Option<Seq<char>> {
    if valid_utf8(bytes) {
        Some(trim(decode_utf8(bytes)))
    } else {
        None
    }
}

/// The index of the first zero byte of `b`, or its length.
pub open spec fn first_zero(b: Seq<u8>) -> nat
    decreases b.len(),
{
    if b.len() == 0 {
        0
    } else if b[0] == 0 {
        0
    } else {
        1 + first_zero(b.drop_first())
    }
}

/// A NUL-terminated text field: the UTF-8 bytes before the first zero.
pub open spec fn nul_terminated_field(bytes: Seq<u8>) -> Option<Seq<char>> {
    let p = bytes.subrange(0, first_zero(bytes) as int);
    if valid_utf8(p) {
        Some(decode_utf8(p))
    } else {
        None
    }
}

proof fn lemma_first_zero(b: Seq<u8>, i: int)
    requires
        0 <= i <= b.len(),
        forall|k: int| 0 <= k < i ==> b[k] != 0,
        i == b.len() || b[i] == 0,
    ensures
        first_zero(b) == i,
    decreases i,
{
    if i > 0 {
        lemma_first_zero(b.drop_first(), i - 1);
    }
}

/// Reads a number field; see `number_field`.
pub fn parse_number_field(bytes: &[u8], radix: u32, strip_nul: bool) -> (r: Result<u64, Option<String>>)
    requires
        radix == 8 || radix == 10,
    ensures
        match (r, number_field(bytes@, radix as nat, strip_nul)) {
            (Ok(a), Ok(b)) => a == b,
            (Err(None), Err(None)) => true,
            (Err(Some(s)), Err(Some(t))) => s@ == t,
            _ => false,
        },
{
    let text = match utf8_to_string(bytes) {
        Some(t) => t,
        None => {
            return Err(None);
        },
    };
    let mut c = chars_of(text.as_str());
    if strip_nul {
        let mut j = c.len();
        while j > 0 && c[j - 1] == '\0'
            invariant
                j <= c@.len(),
                forall|k: int| j <= k < c@.len() ==> c@[k] == '\0',
            decreases j,
        {
            j = j - 1;
        }
        proof {
            lemma_trim_end_nul(c@, j as int);
        }
        c.truncate(j);
    }
    let (i, j) = trim_bounds(&c);
    if i == j {
        return Ok(0);
    }
    match parse_unsigned_chars(&c, i, j, radix) {
        Some(v) => Ok(v),
        None => Err(Some(string_of(&c, i, j))),
    }
}

/// Reads a text field; see `text_field`.
pub fn parse_text_field(bytes: &[u8]) -> (r: Option<String>)
    ensures
        match (r, text_field(bytes@)) {
            (Some(a), Some(b)) => a@ == b,
            (None, None) => true,
            _ => false,
        },
{
    match utf8_to_string(bytes) {
        Some(t) => Some(trim_string(t.as_str())),
        None => None,
    }
}

/// Reads a NUL-terminated text field; see `nul_terminated_field`.
pub fn parse_nul_terminated_field(bytes: &[u8]) -> (r: Option<String>)
    ensures
        match (r, nul_terminated_field(bytes@)) {
            (Some(a), Some(b)) => a@ == b,
            (None, None) => true,
            _ => false,
        },
{
    let n = bytes.len();
    let mut i: usize = 0;
    while i < n && bytes[i] != 0
        invariant
            n == bytes@.len(),
            i <= n,
            forall|k: int| 0 <= k < i ==> bytes@[k] != 0,
        decreases n - i,
    {
        i = i + 1;
    }
    proof {
        lemma_first_zero(bytes@, i as int);
    }
    let prefix = vstd::slice::slice_subrange(bytes, 0, i);
    utf8_to_string(prefix)
}

} // verus!
