//! What the terminal interface shows: the height of each group's panel and
//! the text of each record line.
use vstd::prelude::*;

use crate::result::SearchResult;
use crate::text::append_str;

verus! {

/// The tallest a group's panel grows, borders included.
pub const MAX_SECTION_HEIGHT: u16 = 12;

/// The height of the panel of a group of `n` records: its records and two
/// border lines, at most [`MAX_SECTION_HEIGHT`]; three lines for an empty
/// group, to show that nothing matched.
pub open spec fn panel_height(n: nat) -> nat {
    if n == 0 {
        3
    } else if n + 2 <= MAX_SECTION_HEIGHT {
        n + 2
    } else {
        MAX_SECTION_HEIGHT as nat
    }
}

/// The height of the panel that shows `items`.
pub fn section_height(items: &Vec<SearchResult>) -> (r: u16)
    ensures
        r == panel_height(items@.len()),
{
    if items.len() == 0 {
        return 3;
    }
    if items.len() <= (MAX_SECTION_HEIGHT - 2) as usize {
        items.len() as u16 + 2
    } else {
        MAX_SECTION_HEIGHT
    }
}

/// The text of a record line: `name [version] — description`, without the
/// bracket when there is no version and without the dash and description
/// when the description is empty.
pub open spec fn line_text(r: SearchResult) -> Seq<char> {
    r.name@ + (match r.version {
        Some(v) => " ["@ + v@ + "]"@,
        None => Seq::empty(),
    }) + (if r.description@.len() == 0 {
        Seq::empty()
    } else {
        " — "@ + r.description@
    })
}

/// The text of the line that shows `pkg`.
pub fn item_line(pkg: &SearchResult) -> (r: String)
    ensures
        r@ == line_text(*pkg),
{
    let mut s = pkg.name.clone();
    match &pkg.version {
        Some(v) => {
            append_str(&mut s, " [");
            append_str(&mut s, v.as_str());
            append_str(&mut s, "]");
        },
        None => {},
    }
    let ghost head = s@;
    if !pkg.description.as_str().is_empty() {
        append_str(&mut s, " — ");
        append_str(&mut s, pkg.description.as_str());
    }
    proof {
        match pkg.version {
            Some(ref v) => {
                assert(head =~= pkg.name@ + (" ["@ + v@ + "]"@));
            },
            None => {
                assert(head =~= pkg.name@ + Seq::<char>::empty());
            },
        }
        if pkg.description@.len() == 0 {
            assert(s@ =~= head + Seq::<char>::empty());
        } else {
            assert(s@ =~= head + (" — "@ + pkg.description@));
        }
    }
    s
}

/// The text of a record in the plain prompt: `[backend] name - description`.
pub open spec fn choice_text(r: SearchResult) -> Seq<char> {
    "["@ + r.backend@ + "] "@ + r.name@ + " - "@ + r.description@
}

/// The text that shows `pkg` in the plain prompt.
pub fn choice_line(pkg: &SearchResult) -> (r: String)
    ensures
        r@ == choice_text(*pkg),
{
    let mut s = "[".to_string();
    append_str(&mut s, pkg.backend.as_str());
    append_str(&mut s, "] ");
    append_str(&mut s, pkg.name.as_str());
    append_str(&mut s, " - ");
    append_str(&mut s, pkg.description.as_str());
    s
}

} // verus!
