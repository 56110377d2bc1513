//! The one reply of a turn: each raw result is rewritten as a sentence,
//! results that only say that something is unavailable are left out, and
//! what remains is set as a list between an opening and a closing line.

use crate::text::{
    after_first, begins_with, chars_of, contains, find, find_ignoring_case, includes, join_lines,
    joined, lowercase, occurs_at, position, position_ignoring_case, push_all, push_str, rest_after, slice,
    starts_with, string_of, texts, to_lowercase, trim, trimmed, views,
};
use vstd::prelude::*;

verus! {

/// The whole reply where there is no result at all.
pub const ACKNOWLEDGMENT: &'static str = "Acknowledged.";

/// The opening line of a reply.
pub const LEAD_IN: &'static str = "Here\u{2019}s what I found about this video:";

/// The closing line of a reply.
pub const CLOSING: &'static str =
    "I can analyze more frames or generate materials if you\u{2019}d like.";

/// The words behind which a result names the file that was generated.
pub const GENERATED_MARKER: &'static str = "generated at ";

/// The number of characters that the list entries share, by default.
pub const TOTAL_BUDGET: usize = 600;

/// The number of characters that one list entry may always have, by default.
pub const BULLET_FLOOR: usize = 140;

/// The mark that ends a shortened text.
pub const ELLIPSIS: char = '\u{2026}';

// ---------------------------------------------------------------------
// One result as a sentence
// ---------------------------------------------------------------------

/// What follows the first occurrence of `marker` in `s`, without the
/// white space around it; nothing where `marker` does not occur.
pub open spec fn after_marker(s: Seq<char>, marker: Seq<char>) -> Option<Seq<char>> {
    match find(s, marker) {
        Some(i) => Some(trim(s.skip(i + marker.len()))),
        None => None,
    }
}

/// The caption that a report on objects carries, or the whole report
/// where it carries none or an empty one.
pub open spec fn caption_or_all(report: Seq<char>) -> Seq<char> {
    match after_marker(report, "Caption:"@) {
        Some(cap) => if cap.len() > 0 {
            cap
        } else {
            report
        },
        None => report,
    }
}

/// The path that `raw` names behind the marker that stands at position
/// `at` of it: what follows the marker, without the white space around
/// it, where that is anything at all.
pub open spec fn path_at(raw: Seq<char>, at: int) -> Option<Seq<char>> {
    let start = at + GENERATED_MARKER@.len();
    if 0 <= at && start <= raw.len() && trim(raw.skip(start)).len() > 0 {
        Some(trim(raw.skip(start)))
    } else {
        None
    }
}

/// The sentence for a generated file of the kind `kind`: a link to open
/// it and its path where the path is known.
pub open spec fn generated_sentence(kind: Seq<char>, path: Option<Seq<char>>) -> Seq<char> {
    match path {
        Some(p) => kind + " generated. [Open file](file://"@ + p + ")\nPath: `"@ + p + "`"@,
        None => kind + " generated and saved locally."@,
    }
}

/// The plain sentence that says `body` of `what`.
pub open spec fn regarding(what: Seq<char>, body: Seq<char>) -> Seq<char> {
    "Regarding "@ + what + ", "@ + body + "."@
}

/// The sentence for a result of a generation of the kind `kind`: the
/// link where the result says where the file was generated, else what the
/// result says, as a plain sentence.
pub open spec fn generation_sentence(
    kind: Seq<char>,
    raw: Seq<char>,
    body: Seq<char>,
    at: Option<int>,
) -> Seq<char> {
    match at {
        Some(k) => generated_sentence(kind, path_at(raw, k)),
        None => regarding("the "@ + kind, body),
    }
}

/// The sentence that stands for the raw result `raw`, whose lowercase
/// form is `lower` and in which the words "generated at" stand at
/// position `at`, if they stand in it at all.
///
/// A result under one of the six labels loses its label and is set in the
/// sentence of its kind. A result without a label that says where a
/// PowerPoint or a PDF was generated becomes the link; any other result
/// without a label stays as it is.
pub open spec fn friendly(raw: Seq<char>, lower: Seq<char>, at: Option<int>) -> Seq<char> {
    let body = trim(after_first(raw, ':'));
    if starts_with(lower, "transcription:"@) {
        if body.len() == 0 {
            "I attempted transcription."@
        } else {
            regarding("transcription"@, body)
        }
    } else if starts_with(lower, "objects:"@) {
        "From a video frame, "@ + caption_or_all(body) + "."@
    } else if starts_with(lower, "graphs:"@) {
        "On charts and graphs, "@ + body + "."@
    } else if starts_with(lower, "summary:"@) {
        regarding("the summary"@, body)
    } else if starts_with(lower, "powerpoint:"@) {
        generation_sentence("PowerPoint"@, raw, body, at)
    } else if starts_with(lower, "pdf:"@) {
        generation_sentence("PDF"@, raw, body, at)
    } else if at is Some && contains(lower, "powerpoint"@) {
        generated_sentence("PowerPoint"@, path_at(raw, at->0))
    } else if at is Some && contains(lower, "pdf"@) {
        generated_sentence("PDF"@, path_at(raw, at->0))
    } else {
        raw
    }
}

/// The lowercase form `lower` is that of a result under one of the six
/// labels.
pub open spec fn labelled(lower: Seq<char>) -> bool {
    starts_with(lower, "transcription:"@) || starts_with(lower, "objects:"@) || starts_with(
        lower,
        "graphs:"@,
    ) || starts_with(lower, "summary:"@) || starts_with(lower, "powerpoint:"@) || starts_with(
        lower,
        "pdf:"@,
    )
}

/// The sentence that stands for the raw result `raw`. The words
/// "generated at" are looked for in `raw` itself, case ignored.
pub open spec fn rewritten(raw: Seq<char>) -> Seq<char> {
    friendly(raw, lowercase(raw), find_ignoring_case(raw, GENERATED_MARKER@))
}

/// What follows the first occurrence of `marker` in `s`, without the
/// white space around it.
pub fn text_after_marker(s: &Vec<char>, marker: &str) -> (r: Option<Vec<char>>)
    ensures
        r is Some <==> after_marker(s@, marker@) is Some,
        r matches Some(v) ==> after_marker(s@, marker@) == Some(v@),
{
    match position(s, marker) {
        Some(i) => {
            let m = chars_of(marker);
            let rest = slice(s, i + m.len(), s.len());
            Some(trimmed(&rest))
        },
        None => None,
    }
}

/// The path that `raw` names behind the marker that stands at position
/// `at` of it.
pub fn generated_path(raw: &Vec<char>, at: usize) -> (r: Option<Vec<char>>)
    ensures
        r is Some <==> path_at(raw@, at as int) is Some,
        r matches Some(v) ==> path_at(raw@, at as int) == Some(v@),
{
    let m = chars_of(GENERATED_MARKER);
    if at > raw.len() || m.len() > raw.len() - at {
        return None;
    }
    let p = trimmed(&slice(raw, at + m.len(), raw.len()));
    if p.len() > 0 {
        Some(p)
    } else {
        None
    }
}

/// Writes the sentence for a generated file of the kind `kind`, named by
/// `raw` behind the marker at position `at`.
fn write_generated(kind: &str, raw: &Vec<char>, at: usize) -> (out: Vec<char>)
    ensures
        out@ == generated_sentence(kind@, path_at(raw@, at as int)),
{
    let mut out: Vec<char> = Vec::new();
    push_str(&mut out, kind);
    match generated_path(raw, at) {
        Some(p) => {
            push_str(&mut out, " generated. [Open file](file://");
            push_all(&mut out, &p);
            push_str(&mut out, ")\nPath: `");
            push_all(&mut out, &p);
            push_str(&mut out, "`");
        },
        None => {
            push_str(&mut out, " generated and saved locally.");
        },
    }
    out
}

/// Writes the plain sentence that says `body` of `what`, with `article`
/// before `what`.
fn write_regarding(article: &str, what: &str, body: &Vec<char>) -> (out: Vec<char>)
    ensures
        out@ == regarding(article@ + what@, body@),
{
    let mut out: Vec<char> = Vec::new();
    push_str(&mut out, "Regarding ");
    push_str(&mut out, article);
    push_str(&mut out, what);
    push_str(&mut out, ", ");
    push_all(&mut out, body);
    push_str(&mut out, ".");
    assert(out@ =~= regarding(article@ + what@, body@));
    out
}

/// Writes the sentence for a result of a generation of the kind `kind`.
fn write_generation(kind: &str, raw: &Vec<char>, body: &Vec<char>, at: Option<usize>) -> (out:
    Vec<char>)
    ensures
        out@ == generation_sentence(
            kind@,
            raw@,
            body@,
            match at {
                Some(k) => Some(k as int),
                None => None,
            },
        ),
{
    match at {
        Some(k) => write_generated(kind, raw, k),
        None => write_regarding("the ", kind, body),
    }
}

/// Rewrites the raw result `raw` as a sentence for the user, given its
/// lowercase form `lower` and the position `at` at which the words
/// "generated at" stand in it.
///
/// A result that begins with one of the six labels (in any case) loses
/// that label and is set in a sentence of its kind: of a report on
/// objects only the caption is kept where it has one, and a generation
/// that says where its file is becomes a link to the file and its path.
/// A result without a label that says where a PowerPoint or a PDF was
/// generated becomes the link too. Any other result without a label
/// stays as it is.
pub fn friendly_sentence_with(raw: &str, lower: &str, at: Option<usize>) -> (out: String)
    ensures
        out@ == friendly(
            raw@,
            lower@,
            match at {
                Some(k) => Some(k as int),
                None => None,
            },
        ),
{
    let r = chars_of(raw);
    let l = chars_of(lower);
    let body = trimmed(&rest_after(&r, ':'));
    if begins_with(&l, "transcription:") {
        if body.len() == 0 {
            return "I attempted transcription.".to_owned();
        }
        let sentence = write_regarding("", "transcription", &body);
        assert(""@ + "transcription"@ =~= "transcription"@) by {
            reveal_strlit("");
        }
        return string_of(&sentence);
    }
    if begins_with(&l, "objects:") {
        let mut out: Vec<char> = Vec::new();
        push_str(&mut out, "From a video frame, ");
        match text_after_marker(&body, "Caption:") {
            Some(cap) => {
                if cap.len() > 0 {
                    push_all(&mut out, &cap);
                } else {
                    push_all(&mut out, &body);
                }
            },
            None => {
                push_all(&mut out, &body);
            },
        }
        push_str(&mut out, ".");
        return string_of(&out);
    }
    if begins_with(&l, "graphs:") {
        let mut out: Vec<char> = Vec::new();
        push_str(&mut out, "On charts and graphs, ");
        push_all(&mut out, &body);
        push_str(&mut out, ".");
        return string_of(&out);
    }
    if begins_with(&l, "summary:") {
        let sentence = write_regarding("the ", "summary", &body);
        assert("the "@ + "summary"@ =~= "the summary"@) by {
            reveal_strlit("the ");
            reveal_strlit("summary");
            reveal_strlit("the summary");
        }
        return string_of(&sentence);
    }
    if begins_with(&l, "powerpoint:") {
        return string_of(&write_generation("PowerPoint", &r, &body, at));
    }
    if begins_with(&l, "pdf:") {
        return string_of(&write_generation("PDF", &r, &body, at));
    }
    match at {
        Some(k) => {
            if includes(&l, "powerpoint") {
                return string_of(&write_generated("PowerPoint", &r, k));
            }
            if includes(&l, "pdf") {
                return string_of(&write_generated("PDF", &r, k));
            }
        },
        None => {},
    }
    raw.to_owned()
}

/// Whether the lowercase form `lower` is that of a result in which the
/// words "generated at" play no part: one under the label of a
/// transcription, of objects, of graphs or of a summary.
pub fn has_plain_label(lower: &str) -> (r: bool)
    ensures
        r == (starts_with(lower@, "transcription:"@) || starts_with(lower@, "objects:"@)
            || starts_with(lower@, "graphs:"@) || starts_with(lower@, "summary:"@)),
{
    let l = chars_of(lower);
    begins_with(&l, "transcription:") || begins_with(&l, "objects:") || begins_with(&l, "graphs:")
        || begins_with(&l, "summary:")
}

/// Rewrites the raw result `raw` as a sentence for the user.
pub fn friendly_sentence(raw: &str) -> (out: String)
    ensures
        out@ == rewritten(raw@),
{
    let lower = to_lowercase(raw);
    if has_plain_label(lower.as_str()) {
        return friendly_sentence_with(raw, lower.as_str(), None);
    }
    let at = position_ignoring_case(&chars_of(raw), GENERATED_MARKER);
    friendly_sentence_with(raw, lower.as_str(), at)
}

// ---------------------------------------------------------------------
// What holds of every labelled result
// ---------------------------------------------------------------------

/// `tag` is one of the six labels, as results carry them or in lowercase.
pub open spec fn is_label(tag: Seq<char>) -> bool {
    tag == "Transcription:"@ || tag == "Objects:"@ || tag == "Graphs:"@ || tag == "PowerPoint:"@
        || tag == "Summary:"@ || tag == "PDF:"@ || tag == "transcription:"@ || tag == "objects:"@
        || tag == "graphs:"@ || tag == "powerpoint:"@ || tag == "summary:"@ || tag == "pdf:"@
}

/// What the sentence for a labelled result holds of that result: the
/// text behind the label, but of a report on objects the caption alone,
/// and of a generation that says where its file is, the path.
pub open spec fn kept_text(raw: Seq<char>, lower: Seq<char>, at: Option<int>) -> Seq<char> {
    let body = trim(after_first(raw, ':'));
    if starts_with(lower, "transcription:"@) {
        body
    } else if starts_with(lower, "objects:"@) {
        caption_or_all(body)
    } else if starts_with(lower, "graphs:"@) || starts_with(lower, "summary:"@) {
        body
    } else {
        match at {
            Some(k) => match path_at(raw, k) {
                Some(p) => p,
                None => Seq::empty(),
            },
            None => body,
        }
    }
}

/// The sentence `out` opens in one of the ways in which the sentences for
/// labelled results open.
pub open spec fn opens_as_sentence(out: Seq<char>) -> bool {
    ||| out.len() >= 1 && (out[0] == 'R' || out[0] == 'I' || out[0] == 'F')
    ||| out.len() >= 2 && out[0] == 'O' && out[1] == 'n'
    ||| out.len() >= 11 && out[0] == 'P' && out[1] == 'o' && out[10] == ' '
    ||| out.len() >= 4 && out[0] == 'P' && out[1] == 'D' && out[3] == ' '
}

/// A text that differs from `tag` at one position does not begin with it.
proof fn lemma_not_prefix(s: Seq<char>, tag: Seq<char>, j: int)
    requires
        0 <= j < tag.len(),
        j < s.len() ==> s[j] != tag[j],
    ensures
        !starts_with(s, tag),
{
    if starts_with(s, tag) {
        assert(s.subrange(0, tag.len() as int)[j] == tag[j]);
    }
}

/// A sentence that opens as the sentences for labelled results do begins
/// with none of the labels.
proof fn lemma_sentence_has_no_label(out: Seq<char>, tag: Seq<char>)
    requires
        opens_as_sentence(out),
        is_label(tag),
    ensures
        !starts_with(out, tag),
{
    reveal_strlit("Transcription:");
    reveal_strlit("Objects:");
    reveal_strlit("Graphs:");
    reveal_strlit("PowerPoint:");
    reveal_strlit("Summary:");
    reveal_strlit("PDF:");
    reveal_strlit("transcription:");
    reveal_strlit("objects:");
    reveal_strlit("graphs:");
    reveal_strlit("powerpoint:");
    reveal_strlit("summary:");
    reveal_strlit("pdf:");
    if out[0] == 'O' && tag == "Objects:"@ {
        lemma_not_prefix(out, tag, 1);
    } else if out[0] == 'P' && out[1] == 'o' && tag == "PowerPoint:"@ {
        lemma_not_prefix(out, tag, 10);
    } else if out[0] == 'P' && out[1] == 'o' && tag == "PDF:"@ {
        lemma_not_prefix(out, tag, 1);
    } else if out[0] == 'P' && out[1] == 'D' && tag == "PDF:"@ {
        lemma_not_prefix(out, tag, 3);
    } else if out[0] == 'P' && out[1] == 'D' && tag == "PowerPoint:"@ {
        lemma_not_prefix(out, tag, 1);
    } else {
        lemma_not_prefix(out, tag, 0);
    }
}

/// The sentence for a generated file opens with the kind of the file.
proof fn lemma_generated_opens(path: Option<Seq<char>>)
    ensures
        opens_as_sentence(generated_sentence("PowerPoint"@, path)),
        opens_as_sentence(generated_sentence("PDF"@, path)),
{
    reveal_strlit("PowerPoint");
    reveal_strlit("PDF");
    reveal_strlit(" generated. [Open file](file://");
    reveal_strlit(" generated and saved locally.");
    let a = generated_sentence("PowerPoint"@, path);
    let b = generated_sentence("PDF"@, path);
    match path {
        Some(p) => {
            let rest = " generated. [Open file](file://"@ + p + ")\nPath: `"@ + p + "`"@;
            assert(a =~= "PowerPoint"@ + rest);
            assert(b =~= "PDF"@ + rest);
            assert(rest[0] == ' ');
            assert(a[10] == rest[0]);
            assert(b[3] == rest[0]);
        },
        None => {
            assert(a[10] == " generated and saved locally."@[0]);
            assert(b[3] == " generated and saved locally."@[0]);
        },
    }
    assert(a[0] == 'P' && a[1] == 'o');
    assert(b[0] == 'P' && b[1] == 'D');
}

/// A text that stands between two others stands in the whole.
proof fn lemma_middle_is_contained(before: Seq<char>, middle: Seq<char>, after: Seq<char>)
    ensures
        contains(before + middle + after, middle),
{
    let whole = before + middle + after;
    assert(whole.subrange(before.len() as int, (before.len() + middle.len()) as int) =~= middle);
    assert(occurs_at(whole, middle, before.len() as int));
}

/// The sentence for a generated file holds the path where it is known.
proof fn lemma_generated_holds_path(kind: Seq<char>, p: Seq<char>)
    ensures
        contains(generated_sentence(kind, Some(p)), p),
{
    let before = kind + " generated. [Open file](file://"@;
    let after = ")\nPath: `"@ + p + "`"@;
    lemma_middle_is_contained(before, p, after);
    assert(generated_sentence(kind, Some(p)) =~= before + p + after);
}

/// A plain sentence opens with its first word and holds what it says.
proof fn lemma_regarding(what: Seq<char>, body: Seq<char>)
    ensures
        opens_as_sentence(regarding(what, body)),
        contains(regarding(what, body), body),
{
    reveal_strlit("Regarding ");
    assert(regarding(what, body)[0] == "Regarding "@[0]);
    lemma_middle_is_contained("Regarding "@ + what + ", "@, body, "."@);
}

/// No label is left on a labelled result. The sentence for a result
/// under one of the six labels begins with none of the labels, in
/// whatever case the result carried its own, and it holds the text of the
/// result: what stood behind the label, the caption of a report on
/// objects, or the path of a generated file.
pub proof fn law_label_is_stripped(
    raw: Seq<char>,
    lower: Seq<char>,
    at: Option<int>,
    tag: Seq<char>,
)
    requires
        labelled(lower),
        is_label(tag),
    ensures
        !starts_with(friendly(raw, lower, at), tag),
        contains(friendly(raw, lower, at), kept_text(raw, lower, at)) || (starts_with(
            lower,
            "transcription:"@,
        ) && kept_text(raw, lower, at).len() == 0),
{
    let out = friendly(raw, lower, at);
    let body = trim(after_first(raw, ':'));
    reveal_strlit("I attempted transcription.");
    reveal_strlit("From a video frame, ");
    reveal_strlit("On charts and graphs, ");
    if starts_with(lower, "transcription:"@) {
        if body.len() > 0 {
            lemma_regarding("transcription"@, body);
        }
    } else if starts_with(lower, "objects:"@) {
        assert(out[0] == "From a video frame, "@[0]);
        lemma_middle_is_contained("From a video frame, "@, caption_or_all(body), "."@);
    } else if starts_with(lower, "graphs:"@) {
        assert(out[0] == "On charts and graphs, "@[0]);
        assert(out[1] == "On charts and graphs, "@[1]);
        lemma_middle_is_contained("On charts and graphs, "@, body, "."@);
    } else if starts_with(lower, "summary:"@) {
        lemma_regarding("the summary"@, body);
    } else {
        let kind = if starts_with(lower, "powerpoint:"@) {
            "PowerPoint"@
        } else {
            "PDF"@
        };
        match at {
            Some(k) => {
                lemma_generated_opens(path_at(raw, k));
                match path_at(raw, k) {
                    Some(p) => {
                        lemma_generated_holds_path(kind, p);
                    },
                    None => {
                        assert(occurs_at(out, Seq::<char>::empty(), 0)) by {
                            assert(out.subrange(0, 0) =~= Seq::<char>::empty());
                        }
                    },
                }
            },
            None => {
                lemma_regarding("the "@ + kind, body);
            },
        }
    }
    lemma_sentence_has_no_label(out, tag);
}

// ---------------------------------------------------------------------
// Shortening
// ---------------------------------------------------------------------

/// `s` itself where it has at most `max` characters, else its first `max`
/// characters and the ellipsis.
pub open spec fn clamp(s: Seq<char>, max: int) -> Seq<char> {
    if s.len() <= max {
        s
    } else {
        s.take(max).push(ELLIPSIS)
    }
}

/// Shortens `s` to `max` characters, with an ellipsis behind them where
/// anything was cut off. Lengths count characters.
pub fn clamp_len(s: String, max: usize) -> (out: String)
    ensures
        out@ == clamp(s@, max as int),
{
    let all = chars_of(s.as_str());
    if all.len() <= max {
        return s;
    }
    let mut kept = slice(&all, 0, max);
    kept.push(ELLIPSIS);
    string_of(&kept)
}

// ---------------------------------------------------------------------
// The reply
// ---------------------------------------------------------------------

/// The caption that the raw result `part` carries: what follows
/// "Caption:" in a result that begins with `objects:`.
pub open spec fn caption_in(part: Seq<char>, lower: Seq<char>) -> Option<Seq<char>> {
    if starts_with(lower, "objects:"@) {
        after_marker(part, "Caption:"@)
    } else {
        None
    }
}

/// The caption of the first result that carries one.
pub open spec fn first_caption(parts: Seq<Seq<char>>) -> Option<Seq<char>>
    decreases parts.len(),
{
    if parts.len() == 0 {
        None
    } else {
        match caption_in(parts.first(), lowercase(parts.first())) {
            Some(c) => Some(c),
            None => first_caption(parts.drop_first()),
        }
    }
}

/// A sentence that says that something is unavailable, in any case of
/// letters. Such a sentence gets no list entry.
pub open spec fn is_noise(sentence: Seq<char>) -> bool {
    contains(lowercase(sentence), "unavailable"@)
}

/// The sentences that get a list entry: the rewritten results, in order,
/// without those that are noise.
pub open spec fn sentences(parts: Seq<Seq<char>>) -> Seq<Seq<char>>
    decreases parts.len(),
{
    if parts.len() == 0 {
        Seq::empty()
    } else if is_noise(rewritten(parts.last())) {
        sentences(parts.drop_last())
    } else {
        sentences(parts.drop_last()).push(rewritten(parts.last()))
    }
}

/// The number of characters that each of `n` list entries may have: an
/// equal share of `total`, but never less than `floor`.
pub open spec fn share(total: int, floor: int, n: int) -> int {
    let each = if n <= 1 {
        total
    } else {
        total / n
    };
    if each >= floor {
        each
    } else {
        floor
    }
}

/// The list entry for a sentence, with at most `limit` characters of it.
pub open spec fn bullet(sentence: Seq<char>, limit: int) -> Seq<char> {
    "- "@ + clamp(sentence, limit)
}

/// The list entries for the sentences `kept`.
pub open spec fn bullets(kept: Seq<Seq<char>>, limit: int) -> Seq<Seq<char>> {
    Seq::new(kept.len(), |i: int| bullet(kept[i], limit))
}

/// The opening line: with the caption behind it where there is one.
pub open spec fn lead(caption: Option<Seq<char>>) -> Seq<char> {
    match caption {
        Some(c) => LEAD_IN@ + " "@ + c,
        None => LEAD_IN@,
    }
}

/// The opening line, the list entries and the closing line, each on a
/// line of its own.
pub open spec fn composed(
    caption: Option<Seq<char>>,
    kept: Seq<Seq<char>>,
    total: int,
    floor: int,
) -> Seq<char> {
    lead(caption) + seq!['\n'] + join_lines(bullets(kept, share(total, floor, kept.len() as int)))
        + seq!['\n'] + CLOSING@
}

/// The reply to the raw results `parts`.
pub open spec fn reply_to(parts: Seq<Seq<char>>) -> Seq<char> {
    if parts.len() == 0 {
        ACKNOWLEDGMENT@
    } else {
        composed(
            first_caption(parts),
            sentences(parts),
            TOTAL_BUDGET as int,
            BULLET_FLOOR as int,
        )
    }
}

/// The number of characters that each of `n` list entries may have.
pub fn bullet_share(total: usize, floor: usize, n: usize) -> (limit: usize)
    ensures
        limit == share(total as int, floor as int, n as int),
{
    let each: usize = if n <= 1 {
        total
    } else {
        total / n
    };
    if each >= floor {
        each
    } else {
        floor
    }
}

/// Sets the sentences `kept` as a list between the opening line, which
/// carries the caption where there is one, and the closing line. Each
/// entry gets an equal share of `total` characters, at least `floor`, and
/// ends in an ellipsis where it was cut.
pub fn compose_reply(caption: Option<&str>, kept: &[String], total: usize, floor: usize) -> (out:
    String)
    ensures
        out@ == composed(
            match caption {
                Some(c) => Some(c@),
                None => None,
            },
            texts(kept@),
            total as int,
            floor as int,
        ),
{
    let limit = bullet_share(total, floor, kept.len());
    let mut lines: Vec<Vec<char>> = Vec::new();
    let mut i: usize = 0;
    while i < kept.len()
        invariant
            i <= kept.len(),
            lines.len() == i,
            forall|k: int| 0 <= k < i ==> lines@[k]@ == bullet(kept@[k]@, limit as int),
        decreases kept.len() - i,
    {
        let all = chars_of(kept[i].as_str());
        let mut line: Vec<char> = Vec::new();
        push_str(&mut line, "- ");
        if all.len() <= limit {
            push_all(&mut line, &all);
        } else {
            let head = slice(&all, 0, limit);
            push_all(&mut line, &head);
            line.push(ELLIPSIS);
        }
        lines.push(line);
        i += 1;
    }
    assert(views(lines@) =~= bullets(texts(kept@), limit as int));
    let body = joined(&lines);
    let mut out: Vec<char> = Vec::new();
    push_str(&mut out, LEAD_IN);
    match caption {
        Some(c) => {
            push_str(&mut out, " ");
            push_str(&mut out, c);
        },
        None => {},
    }
    out.push('\n');
    push_all(&mut out, &body);
    out.push('\n');
    push_str(&mut out, CLOSING);
    assert(out@ =~= composed(
        match caption {
            Some(c) => Some(c@),
            None => None,
        },
        texts(kept@),
        total as int,
        floor as int,
    ));
    string_of(&out)
}

/// The caption of the first of `parts` that carries one.
pub fn find_caption(parts: &[String]) -> (r: Option<String>)
    ensures
        r is Some <==> first_caption(texts(parts@)) is Some,
        r matches Some(c) ==> first_caption(texts(parts@)) == Some(c@),
{
    let ghost all = texts(parts@);
    let mut i: usize = 0;
    assert(all.skip(0) =~= all);
    while i < parts.len()
        invariant
            i <= parts.len(),
            all == texts(parts@),
            first_caption(all) == first_caption(all.skip(i as int)),
        decreases parts.len() - i,
    {
        assert(all.skip(i as int).drop_first() =~= all.skip(i + 1));
        let lower = to_lowercase(parts[i].as_str());
        let l = chars_of(lower.as_str());
        if begins_with(&l, "objects:") {
            let p = chars_of(parts[i].as_str());
            match text_after_marker(&p, "Caption:") {
                Some(c) => {
                    return Some(string_of(&c));
                },
                None => {},
            }
        }
        i += 1;
    }
    None
}

/// The sentences that get a list entry: each of `parts` rewritten, in
/// order, without those that say that something is unavailable.
pub fn kept_sentences(parts: &[String]) -> (kept: Vec<String>)
    ensures
        texts(kept@) == sentences(texts(parts@)),
{
    let ghost all = texts(parts@);
    let mut kept: Vec<String> = Vec::new();
    let mut i: usize = 0;
    while i < parts.len()
        invariant
            i <= parts.len(),
            all == texts(parts@),
            texts(kept@) == sentences(all.take(i as int)),
        decreases parts.len() - i,
    {
        assert(all.take(i + 1).drop_last() =~= all.take(i as int));
        let sentence = friendly_sentence(parts[i].as_str());
        let lower = to_lowercase(sentence.as_str());
        let l = chars_of(lower.as_str());
        if !includes(&l, "unavailable") {
            kept.push(sentence);
        }
        i += 1;
    }
    assert(all.take(parts.len() as int) =~= all);
    kept
}

/// Writes the one reply to the raw results `parts` of a turn.
///
/// With no result the reply is a plain acknowledgment. Otherwise it opens
/// with the lead-in, followed by the caption of the first report on
/// objects that carries one; then one list entry for each rewritten
/// result that does not say that something is unavailable, shortened to
/// its share of the budget; then the closing line.
pub fn format_conversational_response(_file_id: &str, _user_msg: &str, parts: &[String]) -> (out:
    String)
    ensures
        out@ == reply_to(texts(parts@)),
{
    if parts.len() == 0 {
        return ACKNOWLEDGMENT.to_owned();
    }
    let caption = find_caption(parts);
    let kept = kept_sentences(parts);
    match caption {
        Some(c) => compose_reply(Some(c.as_str()), kept.as_slice(), TOTAL_BUDGET, BULLET_FLOOR),
        None => compose_reply(None, kept.as_slice(), TOTAL_BUDGET, BULLET_FLOOR),
    }
}

// ---------------------------------------------------------------------
// What holds of every reply
// ---------------------------------------------------------------------

/// No list entry is written for a rewritten result that says, in any case
/// of letters, that something is unavailable: every sentence that gets an
/// entry is the rewriting of one of the results and is free of the word,
/// there is one entry for each such sentence, and where every result is
/// of that kind, the list is empty.
pub proof fn law_no_entry_for_unavailable(parts: Seq<Seq<char>>)
    ensures
        forall|i: int|
            0 <= i < sentences(parts).len() ==> !is_noise(#[trigger] sentences(parts)[i]),
        forall|i: int|
            0 <= i < sentences(parts).len() ==> exists|j: int|
                0 <= j < parts.len() && #[trigger] sentences(parts)[i] == rewritten(parts[j]),
        sentences(parts).len() <= parts.len(),
        (forall|j: int| 0 <= j < parts.len() ==> is_noise(rewritten(#[trigger] parts[j])))
            ==> sentences(parts).len() == 0,
    decreases parts.len(),
{
    if parts.len() > 0 {
        let init = parts.drop_last();
        law_no_entry_for_unavailable(init);
        assert forall|i: int| 0 <= i < sentences(parts).len() implies exists|j: int|
            0 <= j < parts.len() && #[trigger] sentences(parts)[i] == rewritten(parts[j]) by {
            if i < sentences(init).len() {
                let j = choose|j: int|
                    0 <= j < init.len() && sentences(init)[i] == rewritten(init[j]);
                assert(init[j] == parts[j]);
            } else {
                assert(sentences(parts)[i] == rewritten(parts.last()));
            }
        }
        if forall|j: int| 0 <= j < parts.len() ==> is_noise(rewritten(#[trigger] parts[j])) {
            assert forall|j: int| 0 <= j < init.len() implies is_noise(
                rewritten(#[trigger] init[j]),
            ) by {
                assert(init[j] == parts[j]);
            }
        }
    }
}

/// The list of a reply has one entry for each kept sentence, in order,
/// and each entry is made from its sentence alone.
pub proof fn law_entries_follow_sentences(parts: Seq<Seq<char>>, limit: int)
    ensures
        bullets(sentences(parts), limit).len() == sentences(parts).len(),
        forall|i: int|
            0 <= i < sentences(parts).len() ==> #[trigger] bullets(sentences(parts), limit)[i]
                == bullet(sentences(parts)[i], limit),
{
}

} // verus!
