//! The texts in which the answers of the capabilities are handed on, and
//! the one in which a failed frame extraction is.

use crate::text::{
    chars_of, decimal, decimal_of, join_first, join_with, push_all, push_str, string_of, texts,
};
use vstd::prelude::*;

verus! {

/// The number of detected objects that a report names.
pub const TOP_OBJECTS: usize = 5;

/// The kind of file that a generation call makes.
#[derive(Debug, Clone, Copy, PartialEq, Eq, Structural)]
pub enum Generated {
    PowerPoint,
    Pdf,
}

/// The name of a kind of generated file, as reports write it.
pub open spec fn kind_name(kind: Generated) -> Seq<char> {
    match kind {
        Generated::PowerPoint => "PowerPoint"@,
        Generated::Pdf => "PDF"@,
    }
}

impl Generated {
    /// The name of this kind of file, as reports write it.
    pub fn name(self) -> (s: &'static str)
        ensures
            s@ == kind_name(self),
    {
        match self {
            Generated::PowerPoint => "PowerPoint",
            Generated::Pdf => "PDF",
        }
    }
}

/// The number of entries that a report on `n` objects names.
pub open spec fn named(n: int) -> int {
    if n <= TOP_OBJECTS {
        n
    } else {
        TOP_OBJECTS as int
    }
}

/// The report on detected objects: how many there are, the first few of
/// them, and the caption.
pub open spec fn objects_text(objects: Seq<Seq<char>>, caption: Seq<char>) -> Seq<char> {
    "Detected "@ + decimal(objects.len()) + " object(s): "@ + join_with(
        objects.take(named(objects.len() as int)),
        ", "@,
    ) + ". Caption: "@ + caption
}

/// The report on graphs: their kinds where there are any, and the
/// description.
pub open spec fn graphs_text(kinds: Seq<Seq<char>>, description: Seq<char>) -> Seq<char> {
    if kinds.len() == 0 {
        "No graphs detected. "@ + description
    } else {
        "Graphs detected: "@ + join_with(kinds, ", "@) + ". "@ + description
    }
}

/// What a generation call comes to: where the file is, or the error that
/// the capability gave.
pub open spec fn generation_text(
    kind: Generated,
    success: bool,
    path: Seq<char>,
    error: Seq<char>,
) -> Result<Seq<char>, Seq<char>> {
    if success {
        Ok(kind_name(kind) + " generated at "@ + path)
    } else {
        Err(error)
    }
}

/// What is said of a frame that could not be extracted: with what the
/// extractor wrote about it, where it wrote anything.
pub open spec fn frame_failure_text(stderr: Seq<char>) -> Seq<char> {
    if stderr.len() == 0 {
        "ffmpeg failed to generate thumbnail"@
    } else {
        "ffmpeg failed to generate thumbnail"@ + ": "@ + stderr
    }
}

/// Writes the report on detected objects. Each of `objects` is one
/// object as it is to be shown; all of them are counted, the first
/// `TOP_OBJECTS` are named.
pub fn describe_objects(objects: &Vec<String>, caption: &str) -> (out: String)
    ensures
        out@ == objects_text(texts(objects@), caption@),
{
    let shown = if objects.len() <= TOP_OBJECTS {
        objects.len()
    } else {
        TOP_OBJECTS
    };
    let mut out: Vec<char> = Vec::new();
    push_str(&mut out, "Detected ");
    push_all(&mut out, &decimal_of(objects.len()));
    push_str(&mut out, " object(s): ");
    push_all(&mut out, &join_first(objects, shown, ", "));
    push_str(&mut out, ". Caption: ");
    push_str(&mut out, caption);
    string_of(&out)
}

/// Writes the report on graphs of the kinds `kinds`.
pub fn describe_graphs(kinds: &Vec<String>, description: &str) -> (out: String)
    ensures
        out@ == graphs_text(texts(kinds@), description@),
{
    let mut out: Vec<char> = Vec::new();
    if kinds.len() == 0 {
        push_str(&mut out, "No graphs detected. ");
        push_str(&mut out, description);
    } else {
        push_str(&mut out, "Graphs detected: ");
        push_all(&mut out, &join_first(kinds, kinds.len(), ", "));
        push_str(&mut out, ". ");
        push_str(&mut out, description);
        assert(texts(kinds@).take(kinds.len() as int) =~= texts(kinds@));
    }
    string_of(&out)
}

/// Says what a generation call came to: the report that the file was
/// generated at `path` where it succeeded, the capability's own error
/// where it did not.
pub fn generation_report(kind: Generated, success: bool, path: &str, error: &str) -> (r: Result<
    String,
    String,
>)
    ensures
        success ==> r is Ok,
        !success ==> r is Err,
        match r {
            Ok(t) => generation_text(kind, success, path@, error@) == Ok::<Seq<char>, Seq<char>>(
                t@,
            ),
            Err(e) => generation_text(kind, success, path@, error@) == Err::<
                Seq<char>,
                Seq<char>,
            >(e@),
        },
{
    if success {
        let mut out: Vec<char> = Vec::new();
        push_str(&mut out, kind.name());
        push_str(&mut out, " generated at ");
        push_str(&mut out, path);
        Ok(string_of(&out))
    } else {
        Err(error.to_owned())
    }
}

/// Says that the frame could not be extracted, with what the extractor
/// wrote about it.
pub fn frame_failure(stderr: &str) -> (out: String)
    ensures
        out@ == frame_failure_text(stderr@),
{
    let mut out: Vec<char> = Vec::new();
    push_str(&mut out, "ffmpeg failed to generate thumbnail");
    let rest = chars_of(stderr);
    if rest.len() > 0 {
        push_str(&mut out, ": ");
        push_all(&mut out, &rest);
    }
    string_of(&out)
}

} // verus!
