//! Small verified helpers on characters and strings.

use vstd::prelude::*;
use vstd::string::*;

verus! {

/// The characters of a string, one by one.
pub fn chars_of(s: &str) -> (r: Vec<char>)
    ensures
        r@ == s@,
{
    let n = s.unicode_len();
    let mut out: Vec<char> = Vec::new();
    let mut i: usize = 0;
    while i < n
        invariant
            n == s@.len(),
            i <= n,
            out@ == s@.subrange(0, i as int),
        decreases n - i,
    {
        out.push(s.get_char(i));
        i = i + 1;
        assert(out@ =~= s@.subrange(0, i as int));
    }
    assert(out@ =~= s@);
    out
}

/// Whether `c` occurs in `s`.
pub fn contains_char(s: &Vec<char>, c: char) -> (r: bool)
    ensures
        r == s@.contains(c),
{
    let mut i: usize = 0;
    while i < s.len()
        invariant
            i <= s@.len(),
            forall|j: int| 0 <= j < i ==> s@[j] != c,
        decreases s@.len() - i,
    {
        if s[i] == c {
            return true;
        }
        i = i + 1;
    }
    false
}

/// Whether `c` occurs twice in a row in `s`.
pub open spec fn has_pair(s: Seq<char>, c: char) -> bool {
    exists|i: int| 0 <= i && i + 1 < s.len() && #[trigger] s[i] == c && s[i + 1] == c
}

/// Whether `c` occurs twice in a row in `s`.
pub fn contains_pair(s: &Vec<char>, c: char) -> (r: bool)
    ensures
        r == has_pair(s@, c),
{
    let mut i: usize = 0;
    while i < s.len() && i + 1 < s.len()
        invariant
            forall|j: int| 0 <= j < i && j + 1 < s@.len() ==> !(#[trigger] s@[j] == c && s@[j + 1] == c),
        decreases s@.len() - i,
    {
        if s[i] == c && s[i + 1] == c {
            return true;
        }
        i = i + 1;
    }
    false
}

/// The character as a number, with ASCII capitals brought to lower case.
pub open spec fn ascii_folded(c: char) -> u32 {
    if 'A' <= c <= 'Z' {
        (c as u32 + 32) as u32
    } else {
        c as u32
    }
}

/// Equality of two strings, ignoring the case of ASCII letters.
pub open spec fn eq_ignore_ascii_case(a: Seq<char>, b: Seq<char>) -> bool {
    a.len() == b.len() && forall|i: int| 0 <= i < a.len() ==> ascii_folded(a[i]) == ascii_folded(
        b[i],
    )
}

/// Compares `a[from..to]` with `b`, ignoring the case of ASCII letters.
pub fn range_eq_ignore_ascii_case(a: &Vec<char>, from: usize, to: usize, b: &Vec<char>) -> (r:
    bool)
    requires
        from <= to <= a@.len(),
    ensures
        r == eq_ignore_ascii_case(a@.subrange(from as int, to as int), b@),
{
    if to - from != b.len() {
        return false;
    }
    let mut i: usize = 0;
    while i < b.len()
        invariant
            from <= to <= a@.len(),
            to - from == b@.len(),
            i <= b@.len(),
            forall|j: int| 0 <= j < i ==> ascii_folded(a@[from + j]) == ascii_folded(b@[j]),
        decreases b@.len() - i,
    {
        let x = a[from + i];
        let y = b[i];
        let fx: u32 = if 'A' <= x && x <= 'Z' {
            x as u32 + 32
        } else {
            x as u32
        };
        let fy: u32 = if 'A' <= y && y <= 'Z' {
            y as u32 + 32
        } else {
            y as u32
        };
        if fx != fy {
            assert(ascii_folded(a@.subrange(from as int, to as int)[i as int]) != ascii_folded(
                b@[i as int],
            ));
            return false;
        }
        i = i + 1;
    }
    true
}

/// Whether `s` may stand in an HTTP header value: no control character but
/// the tab (every byte of the UTF-8 form is at least 32 and not 127, or is a
/// tab).
pub open spec fn is_header_value(s: Seq<char>) -> bool {
    forall|i: int|
        0 <= i < s.len() ==> ((' ' <= #[trigger] s[i] && s[i] != '\x7f') || s[i] == '\t')
}

/// Whether `s` may be an HTTP header value.
pub fn header_value_ok(s: &str) -> (r: bool)
    ensures
        r == is_header_value(s@),
{
    let cs = chars_of(s);
    let mut i: usize = 0;
    while i < cs.len()
        invariant
            cs@ == s@,
            i <= cs@.len(),
            forall|j: int|
                0 <= j < i ==> ((' ' <= #[trigger] cs@[j] && cs@[j] != '\x7f') || cs@[j] == '\t'),
        decreases cs@.len() - i,
    {
        let c = cs[i];
        if !((' ' <= c && c != '\x7f') || c == '\t') {
            return false;
        }
        i = i + 1;
    }
    true
}

} // verus!
