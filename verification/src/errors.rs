//! What the user is told when a capability call fails: a short text that
//! shows nothing of the transport underneath.

use crate::text::{
    chars_of, contains, find_ignoring_case, first_ignoring_case, includes, law_find_ignoring_case,
    lowercase, position_ignoring_case, slice, string_of, to_lowercase, trim, trimmed,
};
use vstd::prelude::*;

verus! {

/// Said when the capability could not be reached.
pub const AGENT_UNAVAILABLE: &'static str = "agent unavailable";

/// Said when the request was too large to be sent.
pub const REQUEST_TOO_LARGE: &'static str =
    "request too large for a single call; try a shorter clip or let me extract audio automatically";

/// The marker with which the metadata of an error begin, in lowercase.
pub const METADATA_MARKER: &'static str = "metadata:";

/// Said when nothing more is known of a failure.
pub const TRY_AGAIN: &'static str = "couldn\u{2019}t complete this right now; please try again";

/// The failure is one of connecting: the capability was not reached.
pub open spec fn is_transport_failure(lower: Seq<char>) -> bool {
    contains(lower, "transport"@) || contains(lower, "unavailable"@) || contains(
        lower,
        "deadline"@,
    )
}

/// The failure is one of size: the request was too large.
pub open spec fn is_size_failure(lower: Seq<char>) -> bool {
    contains(lower, "resourceexhausted"@) || contains(lower, "message larger than max"@)
}

/// The first `n` characters of `s`, or all of `s` where it has fewer.
pub open spec fn prefix(s: Seq<char>, n: int) -> Seq<char> {
    if 0 <= n <= s.len() {
        s.take(n)
    } else {
        s
    }
}

/// The text that is shown for the error `err`, whose lowercase form is
/// `lower` and in which the metadata begin at position `marker`, if it
/// carries any. The kinds are tried in this order: a failure to connect,
/// a request that was too large, an error that carries metadata, which is
/// cut off where the metadata begin, and anything else.
pub open spec fn sanitized(err: Seq<char>, lower: Seq<char>, marker: Option<int>) -> Seq<char> {
    if is_transport_failure(lower) {
        AGENT_UNAVAILABLE@
    } else if is_size_failure(lower) {
        REQUEST_TOO_LARGE@
    } else {
        match marker {
            Some(k) => trim(prefix(err, k)),
            None => TRY_AGAIN@,
        }
    }
}

/// The text that is shown for the error `err`. The metadata begin at the
/// first position of `err` itself at which, case ignored, the marker
/// stands.
pub open spec fn sanitized_text(err: Seq<char>) -> Seq<char> {
    sanitized(err, lowercase(err), find_ignoring_case(err, METADATA_MARKER@))
}

/// Whether the failure is one of connecting.
pub fn names_transport(lower: &Vec<char>) -> (r: bool)
    ensures
        r == is_transport_failure(lower@),
{
    includes(lower, "transport") || includes(lower, "unavailable") || includes(lower, "deadline")
}

/// Whether the failure is one of size.
pub fn names_size(lower: &Vec<char>) -> (r: bool)
    ensures
        r == is_size_failure(lower@),
{
    includes(lower, "resourceexhausted") || includes(lower, "message larger than max")
}

/// Turns the error `err` into the text that is shown for it, given its
/// lowercase form `lower` and the position `marker` at which its metadata
/// begin.
pub fn sanitize_with(err: &str, lower: &str, marker: Option<usize>) -> (out: String)
    ensures
        out@ == sanitized(
            err@,
            lower@,
            match marker {
                Some(k) => Some(k as int),
                None => None,
            },
        ),
{
    let l = chars_of(lower);
    if names_transport(&l) {
        return AGENT_UNAVAILABLE.to_owned();
    }
    if names_size(&l) {
        return REQUEST_TOO_LARGE.to_owned();
    }
    match marker {
        Some(k) => {
            let e = chars_of(err);
            let n = if k <= e.len() {
                k
            } else {
                e.len()
            };
            let head = slice(&e, 0, n);
            assert(head@ =~= prefix(err@, k as int));
            string_of(&trimmed(&head))
        },
        None => TRY_AGAIN.to_owned(),
    }
}

/// Turns the error `err` of a capability call into the text that is shown
/// for it.
pub fn sanitize_err(err: &str) -> (out: String)
    ensures
        out@ == sanitized_text(err@),
{
    let lower = to_lowercase(err);
    let l = chars_of(lower.as_str());
    if names_transport(&l) || names_size(&l) {
        return sanitize_with(err, lower.as_str(), None);
    }
    let marker = position_ignoring_case(&chars_of(err), METADATA_MARKER);
    sanitize_with(err, lower.as_str(), marker)
}

/// An error that is neither a failure to connect nor one of size, and
/// that carries metadata, is shown up to the marker and no further: the
/// shown text is what stands before the first position of the error
/// itself at which, case ignored, the marker stands, without the white
/// space around it.
pub proof fn law_metadata_cut(err: Seq<char>)
    requires
        !is_transport_failure(lowercase(err)),
        !is_size_failure(lowercase(err)),
    ensures
        match find_ignoring_case(err, METADATA_MARKER@) {
            Some(k) => 0 <= k <= err.len() && first_ignoring_case(err, METADATA_MARKER@, k)
                && sanitized_text(err) == trim(err.take(k)),
            None => sanitized_text(err) == TRY_AGAIN@,
        },
{
    law_find_ignoring_case(err, METADATA_MARKER@);
}

/// Every shown text is one of the three fixed texts or the beginning of
/// the error up to its metadata.
pub proof fn law_nothing_else_is_shown(err: Seq<char>)
    ensures
        sanitized_text(err) == AGENT_UNAVAILABLE@ || sanitized_text(err) == REQUEST_TOO_LARGE@
            || sanitized_text(err) == TRY_AGAIN@ || (find_ignoring_case(err, METADATA_MARKER@)
            matches Some(k) && sanitized_text(err) == trim(err.take(k))),
{
    law_find_ignoring_case(err, METADATA_MARKER@);
}

} // verus!
