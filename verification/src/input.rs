//! Text committed to a single-line `<input>`.

use vstd::prelude::*;

use crate::text::{chars_of, push_char};

verus! {

/// A control character a single-line input never holds.
pub open spec fn is_disallowed_input_char(c: char) -> bool {
    c == '\n' || c == '\r' || c == '\t'
}

/// `text` with every newline, carriage return and tab dropped.
pub open spec fn spec_strip_disallowed(text: Seq<char>) -> Seq<char>
    decreases text.len(),
{
    if text.len() == 0 {
        text
    } else if is_disallowed_input_char(text.last()) {
        spec_strip_disallowed(text.drop_last())
    } else {
        spec_strip_disallowed(text.drop_last()).push(text.last())
    }
}

/// Strips the control characters a single-line `<input>` must never
/// contain in its committed text: a pasted or typed newline, carriage
/// return or tab is dropped, not inserted.
pub fn strip_disallowed_input_chars(text: &str) -> (res: String)
    ensures
        res@ == spec_strip_disallowed(text@),
{
    let v = chars_of(text);
    let mut out = String::new();
    let mut i: usize = 0;
    while i < v.len()
        invariant
            v@ == text@,
            i <= v.len(),
            out@ == spec_strip_disallowed(v@.take(i as int)),
        decreases v.len() - i,
    {
        let c = v[i];
        assert(v@.take(i + 1).drop_last() =~= v@.take(i as int));
        if !(c == '\n' || c == '\r' || c == '\t') {
            push_char(&mut out, c);
        }
        i = i + 1;
    }
    assert(v@.take(v.len() as int) =~= v@);
    out
}

/// Stripping leaves no disallowed character, keeps every other character in
/// order, and stripping twice changes nothing more.
pub proof fn law_strip_is_clean_and_idempotent(text: Seq<char>)
    ensures
        forall|k: int|
            0 <= k < spec_strip_disallowed(text).len() ==> !is_disallowed_input_char(
                #[trigger] spec_strip_disallowed(text)[k],
            ),
        spec_strip_disallowed(spec_strip_disallowed(text)) == spec_strip_disallowed(text),
        spec_strip_disallowed(text).len() <= text.len(),
        (forall|k: int| 0 <= k < text.len() ==> !is_disallowed_input_char(#[trigger] text[k]))
            ==> spec_strip_disallowed(text) == text,
    decreases text.len(),
{
    if text.len() > 0 {
        let rest = text.drop_last();
        law_strip_is_clean_and_idempotent(rest);
        let s = spec_strip_disallowed(rest);
        if !is_disallowed_input_char(text.last()) {
            assert(s.push(text.last()).drop_last() =~= s);
            assert(spec_strip_disallowed(s.push(text.last())) == spec_strip_disallowed(s).push(
                text.last(),
            ));
        }
        if forall|k: int| 0 <= k < text.len() ==> !is_disallowed_input_char(#[trigger] text[k]) {
            assert(!is_disallowed_input_char(text[text.len() - 1]));
            assert(forall|k: int| 0 <= k < rest.len() ==> rest[k] == text[k]);
            assert(s == rest);
            assert(rest.push(text.last()) =~= text);
        }
    }
}

} // verus!
