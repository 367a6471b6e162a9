//! Values that the catalog may leave out.

use crate::text::same_text;
use vstd::prelude::*;

verus! {

broadcast use vstd::string::group_string_axioms;

/// The text, or an empty one where there is none.
pub open spec fn is_text_or_empty(r: String, text: Option<String>) -> bool {
    match text {
        Some(s) => r == s,
        None => r@ == Seq::<char>::empty(),
    }
}

/// The list, or an empty one where there is none.
pub open spec fn is_list_or_empty(r: Vec<String>, list: Option<Vec<String>>) -> bool {
    match list {
        Some(l) => r == l,
        None => r@ == Seq::<String>::empty(),
    }
}

/// The text, or an empty one where there is none.
pub fn text_or_empty(text: Option<String>) -> (r: String)
    ensures
        is_text_or_empty(r, text),
{
    match text {
        Some(s) => s,
        None => String::new(),
    }
}

/// The list, or an empty one where there is none.
pub fn list_or_empty(list: Option<Vec<String>>) -> (r: Vec<String>)
    ensures
        is_list_or_empty(r, list),
{
    match list {
        Some(l) => l,
        None => Vec::new(),
    }
}

/// `text` is there and is `expected`.
pub open spec fn is_some_text(text: Option<String>, expected: Seq<char>) -> bool {
    text is Some && text->0@ == expected
}

/// Whether `text` is there and is `expected`.
pub fn holds_text(text: &Option<String>, expected: &str) -> (r: bool)
    ensures
        r == is_some_text(*text, expected@),
{
    match text {
        Some(s) => same_text(s.as_str(), expected),
        None => false,
    }
}

/// The text, unless it is `unwanted`.
pub open spec fn unless_text(text: Option<String>, unwanted: Seq<char>) -> Option<String> {
    if is_some_text(text, unwanted) {
        None
    } else {
        text
    }
}

/// The text, unless it is `unwanted`.
pub fn drop_text(text: Option<String>, unwanted: &str) -> (r: Option<String>)
    ensures
        r == unless_text(text, unwanted@),
{
    if holds_text(&text, unwanted) {
        None
    } else {
        text
    }
}

} // verus!
