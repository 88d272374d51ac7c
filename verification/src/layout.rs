//! Which nodes lay their children out as an inline formatting context:
//! text and inline-level elements sharing wrapped lines, rather than the
//! block, flex or grid algorithm. The slice handled is bounded: every
//! element child must be `inline` or `inline-block` and a leaf (one level
//! of mixed inline content), and there must be real content to lay out.

use vstd::prelude::*;

use crate::paint::Display;
use crate::text::chars_of;

verus! {

/// The Unicode `White_Space` property: tab, line feed, vertical tab, form
/// feed, carriage return, space, next line, no-break space, ogham space
/// mark, the en quad through hair space, line and paragraph separator,
/// narrow no-break space, medium mathematical space and ideographic space.
pub open spec fn is_whitespace_char(c: char) -> bool {
    let x = c as u32;
    ||| 0x09 <= x <= 0x0D
    ||| x == 0x20
    ||| x == 0x85
    ||| x == 0xA0
    ||| x == 0x1680
    ||| 0x2000 <= x <= 0x200A
    ||| x == 0x2028
    ||| x == 0x2029
    ||| x == 0x202F
    ||| x == 0x205F
    ||| x == 0x3000
}

/// Whether `c` has the Unicode `White_Space` property (what
/// `char::is_whitespace` answers), as [`is_whitespace_char`] lists it.
pub fn char_is_whitespace(c: char) -> (res: bool)
    ensures
        res == is_whitespace_char(c),
{
    let x = c as u32;
    (0x09 <= x && x <= 0x0D) || x == 0x20 || x == 0x85 || x == 0xA0 || x == 0x1680 || (0x2000 <= x
        && x <= 0x200A) || x == 0x2028 || x == 0x2029 || x == 0x202F || x == 0x205F || x == 0x3000
}

/// Text made only of white space (or empty): what trimming leaves empty.
pub open spec fn is_blank(text: Seq<char>) -> bool {
    forall|k: int| 0 <= k < text.len() ==> #[trigger] is_whitespace_char(text[k])
}

/// Whether `text` is empty once white space is trimmed from both ends.
pub fn is_blank_text(text: &str) -> (blank: bool)
    ensures
        blank == is_blank(text@),
{
    let v = chars_of(text);
    let mut i: usize = 0;
    while i < v.len()
        invariant
            i <= v@.len(),
            v@ == text@,
            forall|k: int| 0 <= k < i ==> #[trigger] is_whitespace_char(v@[k]),
        decreases v.len() - i,
    {
        if !char_is_whitespace(v[i]) {
            return false;
        }
        i = i + 1;
    }
    true
}

/// One item of a node's inline content, in document order.
#[derive(Debug, Clone, PartialEq)]
pub enum InlineItem {
    /// A run of the node's own text.
    Text(String),
    /// An element child: its computed `display` (`None` when it has no
    /// computed style) and whether it has element children of its own.
    Element { display: Option<Display>, has_element_children: bool },
}

/// An element child that fits the bounded slice: `inline` or
/// `inline-block`, and a leaf.
pub open spec fn is_inline_leaf(item: InlineItem) -> bool {
    match item {
        InlineItem::Element { display, has_element_children } => (display == Some(Display::Inline)
            || display == Some(Display::InlineBlock)) && !has_element_children,
        InlineItem::Text(_) => true,
    }
}

/// Real content to lay out inline: text that is not blank, or an element.
pub open spec fn is_real_inline_content(item: InlineItem) -> bool {
    match item {
        InlineItem::Text(text) => !is_blank(text@),
        InlineItem::Element { .. } => true,
    }
}

/// A node lays its children out inline when every element child is an
/// inline-level leaf and some item is real content.
pub open spec fn spec_is_inline_formatting_context(items: Seq<InlineItem>) -> bool {
    &&& forall|k: int| 0 <= k < items.len() ==> #[trigger] is_inline_leaf(items[k])
    &&& exists|k: int| 0 <= k < items.len() && #[trigger] is_real_inline_content(items[k])
}

/// Whether a node with inline content `items` is laid out as an inline
/// formatting context (see [`spec_is_inline_formatting_context`]); the
/// painter asks the same question so that it paints what layout did.
pub fn is_inline_formatting_context(items: &[InlineItem]) -> (inline: bool)
    ensures
        inline == spec_is_inline_formatting_context(items@),
{
    let mut has_real_inline_content = false;
    let mut i: usize = 0;
    while i < items.len()
        invariant
            i <= items@.len(),
            forall|k: int| 0 <= k < i ==> #[trigger] is_inline_leaf(items@[k]),
            has_real_inline_content == exists|k: int| 0 <= k < i && #[trigger] is_real_inline_content(
                items@[k],
            ),
        decreases items.len() - i,
    {
        let ghost before = has_real_inline_content;
        match &items[i] {
            InlineItem::Text(text) => {
                if !is_blank_text(text.as_str()) {
                    has_real_inline_content = true;
                }
            },
            InlineItem::Element { display, has_element_children } => {
                let inline_level = match display {
                    Some(Display::Inline) => true,
                    Some(Display::InlineBlock) => true,
                    _ => false,
                };
                if !inline_level || *has_element_children {
                    assert(!is_inline_leaf(items@[i as int]));
                    return false;
                }
                has_real_inline_content = true;
            },
        }
        proof {
            assert(has_real_inline_content == (before || is_real_inline_content(items@[i as int])));
            if has_real_inline_content && !before {
                assert(is_real_inline_content(items@[i as int]));
            }
            if !has_real_inline_content {
                assert forall|k: int| 0 <= k < i + 1 implies !#[trigger] is_real_inline_content(items@[k]) by {
                }
            }
        }
        i = i + 1;
    }
    has_real_inline_content
}

} // verus!
