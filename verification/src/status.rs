//! What the search bar works with and shows: the query as it is searched,
//! and the line that tells the number of matches.

use vstd::prelude::*;
use vstd::string::StringExecFns;
use crate::numbers::{decimal_digits, format_usize_with_thousands, grouped_by_thousands};
use crate::text::{chars_of, text_of};

verus! {

/// The greatest number of characters of a query that are searched for.
pub const MAX_SEARCH_QUERY_CHARS: usize = 100;

/// The first characters of a text, up to `MAX_SEARCH_QUERY_CHARS` of them.
pub open spec fn clamped(text: Seq<char>) -> Seq<char> {
    if text.len() <= MAX_SEARCH_QUERY_CHARS {
        text
    } else {
        text.take(MAX_SEARCH_QUERY_CHARS as int)
    }
}

/// The query as it is searched: what was typed, cut to
/// `MAX_SEARCH_QUERY_CHARS` characters.
pub fn clamp_search_query(s: &str) -> (query: String)
    ensures
        query@ == clamped(s@),
{
    let chars = chars_of(s);
    if chars.len() <= MAX_SEARCH_QUERY_CHARS {
        String::from_str(s)
    } else {
        let kept = vstd::slice::slice_subrange(chars.as_slice(), 0, MAX_SEARCH_QUERY_CHARS);
        assert(kept@ =~= s@.take(MAX_SEARCH_QUERY_CHARS as int));
        text_of(kept)
    }
}

/// The line that tells the number of matches: nothing after a failed
/// search, `0 matches` for none, and else the number in groups of three
/// digits with `match` or, for more than one, `matches`.
pub open spec fn status_line(count: Option<usize>) -> Seq<char> {
    match count {
        None => Seq::empty(),
        Some(n) => if n == 0 {
            "0 matches"@
        } else if n == 1 {
            grouped_by_thousands(decimal_digits(n as nat)) + " match"@
        } else {
            grouped_by_thousands(decimal_digits(n as nat)) + " matches"@
        },
    }
}

/// The line that tells the number of matches.
pub fn match_status_text(count: Option<usize>) -> (line: String)
    ensures
        line@ == status_line(count),
{
    match count {
        None => String::new(),
        Some(n) => {
            if n == 0 {
                String::from_str("0 matches")
            } else {
                let mut line = format_usize_with_thousands(n);
                if n == 1 {
                    line.append(" match");
                } else {
                    line.append(" matches");
                }
                line
            }
        },
    }
}

} // verus!
