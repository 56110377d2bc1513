use auralink::text::position_ignoring_case;
use auralink::errors::{
    sanitize_err, sanitize_with, AGENT_UNAVAILABLE, REQUEST_TOO_LARGE, TRY_AGAIN,
};

#[test]
fn transport_errors_say_agent_unavailable() {
    assert_eq!(sanitize_err("transport error"), "agent unavailable");
    assert_eq!(sanitize_err("status: Unavailable, message: \"tcp connect\""), "agent unavailable");
    assert_eq!(sanitize_err("Deadline exceeded"), "agent unavailable");
    assert_eq!(AGENT_UNAVAILABLE, "agent unavailable");
}

#[test]
fn oversized_requests_suggest_a_shorter_input() {
    let expected =
        "request too large for a single call; try a shorter clip or let me extract audio automatically";
    assert_eq!(sanitize_err("status: ResourceExhausted"), expected);
    assert_eq!(sanitize_err("Error, message larger than max (5 vs 4)"), expected);
    assert_eq!(REQUEST_TOO_LARGE, expected);
}

#[test]
fn metadata_is_cut_off() {
    assert_eq!(sanitize_err("model crashed   metadata: {\"a\": 1}"), "model crashed");
    assert_eq!(sanitize_err("  Bad input, Metadata: x metadata: y"), "Bad input,");
    assert_eq!(sanitize_err("metadata: only"), "");
}

#[test]
fn unknown_errors_get_the_general_text() {
    assert_eq!(
        sanitize_err("something odd"),
        "couldn\u{2019}t complete this right now; please try again"
    );
    assert_eq!(sanitize_err(""), TRY_AGAIN);
}

#[test]
fn kinds_are_tried_in_order() {
    assert_eq!(sanitize_err("transport failed, message larger than max"), "agent unavailable");
    assert_eq!(sanitize_err("unavailable metadata: x"), "agent unavailable");
    assert_eq!(sanitize_err("oops resourceexhausted metadata: x"), REQUEST_TOO_LARGE);
}

#[test]
fn sanitize_with_cuts_at_the_given_position() {
    assert_eq!(sanitize_with("ABC metadata: x", "abc metadata: x", Some(4)), "ABC");
    assert_eq!(sanitize_with("ABC metadata: x", "abc metadata: x", Some(0)), "");
    assert_eq!(sanitize_with("ABC metadata: x", "abc metadata: x", None), TRY_AGAIN);
    assert_eq!(sanitize_with("short", "short", Some(99)), "short");
    assert_eq!(sanitize_with("whatever", "transport", Some(2)), AGENT_UNAVAILABLE);
    assert_eq!(sanitize_with("whatever", "resourceexhausted", None), REQUEST_TOO_LARGE);
}

#[test]
fn metadata_are_cut_where_they_begin_in_the_error_itself() {
    // The lowercase form of U+0130 has two characters, so the marker stands
    // one place further on in the lowercase form than in the error.
    assert_eq!("\u{130}".to_lowercase().chars().count(), 2);
    assert_eq!(sanitize_err("\u{130} metadata: x"), "\u{130}");
    assert_eq!(sanitize_err("\u{130}\u{130}\u{130} Metadata: secret"), "\u{130}\u{130}\u{130}");
    assert_eq!(sanitize_err("\u{130}\u{130}\u{130}\u{130}\u{130}\u{130}\u{130}\u{130}\u{130}\u{130} METADATA: secret"), "\u{130}\u{130}\u{130}\u{130}\u{130}\u{130}\u{130}\u{130}\u{130}\u{130}");
}

#[test]
fn marker_position_is_searched_without_regard_to_case() {
    let chars = |s: &str| s.chars().collect::<Vec<char>>();
    assert_eq!(position_ignoring_case(&chars("ab MetaData: x"), "metadata:"), Some(3));
    assert_eq!(position_ignoring_case(&chars("\u{130} metadata: metadata:"), "metadata:"), Some(2));
    assert_eq!(position_ignoring_case(&chars("meta data"), "metadata:"), None);
    assert_eq!(position_ignoring_case(&chars(""), "metadata:"), None);
    assert_eq!(position_ignoring_case(&chars("abc"), ""), Some(0));
}
