//! Regular-expression matching through `regex_lite`, with the pattern passed in by the
//! caller: the first two capture groups of every match, left to right.

use vstd::prelude::*;

verus! {

/// Name for capture groups 1 and 2 of every match of the regular expression `pattern` in
/// `text`, as `regex_lite::Regex::captures_iter` finds them, left to right (`None` for a group
/// that did not take part or that the pattern does not have); empty when `pattern` does not
/// compile.
pub uninterp spec fn regex_captures(pattern: Seq<char>, text: Seq<char>) -> Seq<(Option<Seq<char>>, Option<Seq<char>>)>;

/// The views of optional capture pairs.
pub open spec fn captures_view(v: Seq<(Option<String>, Option<String>)>) -> Seq<(Option<Seq<char>>, Option<Seq<char>>)> {
    v.map_values(
        |c: (Option<String>, Option<String>)|
            (
                match c.0 {
                    Some(x) => Some(x@),
                    None => None,
                },
                match c.1 {
                    Some(x) => Some(x@),
                    None => None,
                },
            ),
    )
}

/// Compiles `pattern` with `regex_lite::Regex::new` and runs `captures_iter` over `text`,
/// keeping groups 1 and 2 of each match; a pattern that does not compile gives no match.
/// The contract names the result.
#[verifier::external_body]
pub(crate) fn capture_pairs(pattern: &str, text: &str) -> (r: Vec<(Option<String>, Option<String>)>)
    ensures
        captures_view(r@) == regex_captures(pattern@, text@),
{
    match regex_lite::Regex::new(pattern) {
        Ok(re) => re.captures_iter(text).map(|c| (c.get(1).map(|m| m.as_str().to_string()), c.get(2).map(|m| m.as_str().to_string()))).collect(),
        Err(_) => Vec::new(),
    }
}

} // verus!
