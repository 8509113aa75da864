//! Keyword matching the in-memory stores use: ASCII case-insensitive
//! substring tests over the texts a record carries.

use vstd::prelude::*;
use crate::text::{contains_chars, contains_ci, lower_chars};
use crate::types::MemoryEvent;

verus! {

/// Whether `needle` occurs in `haystack`, ignoring ASCII case.
pub fn contains_case_insensitive(haystack: &str, needle: &str) -> (r: bool)
    ensures
        r == contains_ci(haystack@, needle@),
{
    let h = lower_chars(haystack);
    let n = lower_chars(needle);
    contains_chars(&h, &n)
}

/// An optional text contains the needle: absent text never does.
pub open spec fn opt_contains_ci(haystack: Option<String>, needle: Seq<char>) -> bool {
    haystack matches Some(h) && contains_ci(h@, needle)
}

pub fn optional_contains(haystack: &Option<String>, needle: &str) -> (r: bool)
    ensures
        r == opt_contains_ci(*haystack, needle@),
{
    match haystack {
        Some(h) => contains_case_insensitive(h.as_str(), needle),
        None => false,
    }
}

/// An event matches a keyword when one of its texts contains it, or its
/// user id when `include_user_id` is set.
pub open spec fn event_keyword_match(e: MemoryEvent, needle: Seq<char>, include_user_id: bool) -> bool {
    ||| opt_contains_ci(e.previous_content, needle)
    ||| opt_contains_ci(e.new_content, needle)
    ||| opt_contains_ci(e.provider_name, needle)
    ||| opt_contains_ci(e.model_name, needle)
    ||| (include_user_id && contains_ci(e.user_id@, needle))
}

pub fn event_matches_keyword(event: &MemoryEvent, needle: &str, include_user_id: bool) -> (r: bool)
    ensures
        r == event_keyword_match(*event, needle@, include_user_id),
{
    optional_contains(&event.previous_content, needle) || optional_contains(&event.new_content, needle)
        || optional_contains(&event.provider_name, needle) || optional_contains(&event.model_name, needle)
        || (include_user_id && contains_case_insensitive(event.user_id.as_str(), needle))
}

} // verus!
