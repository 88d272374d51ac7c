//! Character-level string helpers shared by the modules that build or
//! compare text.

use vstd::prelude::*;

verus! {

/// Appends one character to `s` (`String::push`).
#[verifier::external_body]
pub(crate) fn push_char(s: &mut String, c: char)
    ensures
        final(s)@ == old(s)@.push(c),
{
    s.push(c)
}

/// The characters of `s`, in order.
pub fn chars_of(s: &str) -> (v: Vec<char>)
    ensures
        v@ == s@,
{
    let mut v: Vec<char> = Vec::new();
    for c in it: s.chars()
        invariant
            v@ == it.seq().take(it.index() as int),
    {
        v.push(c);
    }
    v
}

/// The code point of `c` with an ASCII capital letter mapped to its small
/// letter; every other character is left as it is.
pub open spec fn spec_ascii_fold(c: char) -> u32 {
    if 65 <= (c as u32) && (c as u32) <= 90 {
        (c as u32 + 32) as u32
    } else {
        c as u32
    }
}

/// Two texts are equal when ASCII letter case is ignored: same length, and
/// characters at the same position agree after ASCII folding.
pub open spec fn spec_eq_ignore_ascii_case(a: Seq<char>, b: Seq<char>) -> bool {
    &&& a.len() == b.len()
    &&& forall|i: int| 0 <= i < a.len() ==> #[trigger] spec_ascii_fold(a[i]) == spec_ascii_fold(b[i])
}

/// An ASCII letter (`a`-`z` or `A`-`Z`).
pub open spec fn is_ascii_alpha(c: char) -> bool {
    (65 <= (c as u32) && (c as u32) <= 90) || (97 <= (c as u32) && (c as u32) <= 122)
}

/// An ASCII digit (`0`-`9`).
pub open spec fn is_ascii_digit(c: char) -> bool {
    48 <= (c as u32) && (c as u32) <= 57
}

/// An ASCII letter or digit.
pub open spec fn is_ascii_alnum(c: char) -> bool {
    is_ascii_alpha(c) || is_ascii_digit(c)
}

/// The code point of `c`, an ASCII capital letter folded to small.
pub fn ascii_fold(c: char) -> (r: u32)
    ensures
        r == spec_ascii_fold(c),
{
    let x = c as u32;
    if 65 <= x && x <= 90 {
        x + 32
    } else {
        x
    }
}

/// Whether `c` is an ASCII letter.
pub fn is_ascii_alpha_char(c: char) -> (r: bool)
    ensures
        r == is_ascii_alpha(c),
{
    let x = c as u32;
    (65 <= x && x <= 90) || (97 <= x && x <= 122)
}

/// Whether `c` is an ASCII letter or digit.
pub fn is_ascii_alnum_char(c: char) -> (r: bool)
    ensures
        r == is_ascii_alnum(c),
{
    let x = c as u32;
    (65 <= x && x <= 90) || (97 <= x && x <= 122) || (48 <= x && x <= 57)
}

/// `str::eq_ignore_ascii_case`: equal texts once ASCII letter case is
/// ignored (comparing byte by byte, as std does, agrees with comparing
/// character by character, since ASCII folding never touches a byte of a
/// multi-byte character).
pub fn eq_ignore_ascii_case(a: &str, b: &str) -> (res: bool)
    ensures
        res == spec_eq_ignore_ascii_case(a@, b@),
{
    let x = chars_of(a);
    let y = chars_of(b);
    if x.len() != y.len() {
        return false;
    }
    let mut i: usize = 0;
    while i < x.len()
        invariant
            0 <= i <= x.len(),
            x.len() == y.len(),
            x@ == a@,
            y@ == b@,
            forall|k: int| 0 <= k < i ==> #[trigger] spec_ascii_fold(x@[k]) == spec_ascii_fold(y@[k]),
        decreases x.len() - i,
    {
        if ascii_fold(x[i]) != ascii_fold(y[i]) {
            return false;
        }
        i = i + 1;
    }
    true
}

/// Whether some entry of `list` equals `s` once ASCII case is ignored.
pub open spec fn spec_contains_ignore_ascii_case(list: Seq<Seq<char>>, s: Seq<char>) -> bool {
    exists|k: int| 0 <= k < list.len() && spec_eq_ignore_ascii_case(#[trigger] list[k], s)
}

/// Whether some entry of `list` equals `s` once ASCII case is ignored.
pub fn contains_ignore_ascii_case(list: &[String], s: &str) -> (res: bool)
    ensures
        res == spec_contains_ignore_ascii_case(list.deep_view(), s@),
{
    let mut k: usize = 0;
    while k < list.len()
        invariant
            0 <= k <= list.len(),
            forall|j: int| 0 <= j < k ==> !spec_eq_ignore_ascii_case(#[trigger] list.deep_view()[j], s@),
        decreases list.len() - k,
    {
        if eq_ignore_ascii_case(list[k].as_str(), s) {
            assert(spec_eq_ignore_ascii_case(list.deep_view()[k as int], s@));
            return true;
        }
        k = k + 1;
    }
    false
}

} // verus!

verus! {

/// Whether `a` and `b` are the same text.
pub fn str_eq(a: &str, b: &str) -> (res: bool)
    ensures
        res == (a@ == b@),
{
    let x = chars_of(a);
    let y = chars_of(b);
    if x.len() != y.len() {
        return false;
    }
    let mut i: usize = 0;
    while i < x.len()
        invariant
            0 <= i <= x.len(),
            x.len() == y.len(),
            x@ == a@,
            y@ == b@,
            forall|k: int| 0 <= k < i ==> x@[k] == y@[k],
        decreases x.len() - i,
    {
        if x[i] != y[i] {
            return false;
        }
        i = i + 1;
    }
    assert(x@ =~= y@);
    true
}

} // verus!
