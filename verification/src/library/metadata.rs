//! What the tag reader decides about a file's tags.

use vstd::prelude::*;

verus! {

/// The title of a file: its tagged title when that is not empty, else the
/// file's stem, else empty.
pub open spec fn title_of(tag: Option<Seq<char>>, stem: Option<Seq<char>>) -> Seq<char> {
    match tag {
        Some(t) if t.len() > 0 => t,
        _ => match stem {
            Some(s) => s,
            None => Seq::empty(),
        },
    }
}

/// Picks a track's title: the tagged title unless it is empty, falling back
/// to the file stem, and to the empty string without one.
pub fn title_or_stem(tag: Option<String>, stem: Option<String>) -> (r: String)
    ensures
        r@ == title_of(
            match tag {
                Some(t) => Some(t@),
                None => None,
            },
            match stem {
                Some(s) => Some(s@),
                None => None,
            },
        ),
{
    if let Some(t) = tag {
        if !t.as_str().is_empty() {
            return t;
        }
    }
    match stem {
        Some(s) => s,
        None => String::new(),
    }
}

} // verus!
