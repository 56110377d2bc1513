//! Scoring a message for the six capabilities, and asking back when the
//! scores do not say clearly enough what is wanted.

use crate::text::{
    chars_of, contains, includes, join_lines, joined, lowercase, push_all, push_str, string_of,
    to_lowercase, trim, trimmed, views,
};
use vstd::prelude::*;

verus! {

/// A score above zero and below this one is a weak signal.
pub const LOW_CONFIDENCE: u8 = 6;

/// A capability is invoked when its score is at least this.
pub const HIGH_CONFIDENCE: u8 = 7;

/// What is said when a message asks for nothing that can be recognised.
pub const GENERIC_MENU: &'static str =
    "I'm not sure what you'd like me to do with this video. Could you provide more details? For example:\n- \"Transcribe the video\"\n- \"What objects are shown in the video?\"\n- \"Are there any graphs?\"\n- \"Create a PowerPoint with key points\"\n- \"Summarize our discussion and generate a PDF\"";

/// The six capabilities, in the order in which they are declared, offered
/// and numbered.
#[derive(Debug, Clone, Copy, PartialEq, Eq, Structural)]
pub enum Capability {
    Transcribe,
    Objects,
    Graphs,
    Slides,
    Document,
    Summary,
}

/// The digit under which a capability is offered and chosen: 1 to 6 in
/// the order of declaration.
pub open spec fn ordinal_of(c: Capability) -> char {
    match c {
        Capability::Transcribe => '1',
        Capability::Objects => '2',
        Capability::Graphs => '3',
        Capability::Slides => '4',
        Capability::Document => '5',
        Capability::Summary => '6',
    }
}

/// The capability that a digit names.
pub open spec fn capability_of(d: char) -> Option<Capability> {
    if d == '1' {
        Some(Capability::Transcribe)
    } else if d == '2' {
        Some(Capability::Objects)
    } else if d == '3' {
        Some(Capability::Graphs)
    } else if d == '4' {
        Some(Capability::Slides)
    } else if d == '5' {
        Some(Capability::Document)
    } else if d == '6' {
        Some(Capability::Summary)
    } else {
        None
    }
}

/// The words with which a capability is offered in a question.
pub open spec fn offer_text(c: Capability) -> Seq<char> {
    match c {
        Capability::Transcribe => "transcribe the audio"@,
        Capability::Objects => "detect objects in the video"@,
        Capability::Graphs => "identify charts or graphs"@,
        Capability::Slides => "create a PowerPoint presentation"@,
        Capability::Document => "generate a PDF document"@,
        Capability::Summary => "summarize our conversation"@,
    }
}

/// The request that stands for a capability when it is chosen by number.
pub open spec fn request_text(c: Capability) -> Seq<char> {
    match c {
        Capability::Transcribe => "transcribe the video"@,
        Capability::Objects => "what objects are shown in the video"@,
        Capability::Graphs => "are there any graphs or charts"@,
        Capability::Slides => "create a powerpoint presentation"@,
        Capability::Document => "generate a pdf document"@,
        Capability::Summary => "summarize our conversation"@,
    }
}

impl Capability {
    /// The digit under which this capability is offered and chosen.
    pub fn ordinal(self) -> (d: char)
        ensures
            d == ordinal_of(self),
            capability_of(d) == Some(self),
    {
        match self {
            Capability::Transcribe => '1',
            Capability::Objects => '2',
            Capability::Graphs => '3',
            Capability::Slides => '4',
            Capability::Document => '5',
            Capability::Summary => '6',
        }
    }

    /// The capability that the digit `d` names; none for any other character.
    pub fn from_digit(d: char) -> (c: Option<Capability>)
        ensures
            c == capability_of(d),
    {
        if d == '1' {
            Some(Capability::Transcribe)
        } else if d == '2' {
            Some(Capability::Objects)
        } else if d == '3' {
            Some(Capability::Graphs)
        } else if d == '4' {
            Some(Capability::Slides)
        } else if d == '5' {
            Some(Capability::Document)
        } else if d == '6' {
            Some(Capability::Summary)
        } else {
            None
        }
    }

    /// The words with which this capability is offered in a question.
    pub fn offer_phrase(self) -> (s: &'static str)
        ensures
            s@ == offer_text(self),
    {
        match self {
            Capability::Transcribe => "transcribe the audio",
            Capability::Objects => "detect objects in the video",
            Capability::Graphs => "identify charts or graphs",
            Capability::Slides => "create a PowerPoint presentation",
            Capability::Document => "generate a PDF document",
            Capability::Summary => "summarize our conversation",
        }
    }

    /// The request that stands for this capability when it is chosen by
    /// number.
    pub fn canonical_request(self) -> (s: &'static str)
        ensures
            s@ == request_text(self),
    {
        match self {
            Capability::Transcribe => "transcribe the video",
            Capability::Objects => "what objects are shown in the video",
            Capability::Graphs => "are there any graphs or charts",
            Capability::Slides => "create a powerpoint presentation",
            Capability::Document => "generate a pdf document",
            Capability::Summary => "summarize our conversation",
        }
    }
}

// ---------------------------------------------------------------------
// Replies by number
// ---------------------------------------------------------------------

/// The message that is scored in place of `msg`: where `msg`, without the
/// white space around it, is one of the digits 1 to 6, the request of the
/// capability with that number; otherwise `msg` itself.
pub open spec fn resolved(msg: Seq<char>) -> Seq<char> {
    let t = trim(msg);
    if t.len() == 1 && capability_of(t[0]) is Some {
        request_text(capability_of(t[0])->0)
    } else {
        msg
    }
}

/// Replaces a reply that is a single digit from 1 to 6 by the request of
/// the capability with that number, and leaves every other message as it is.
pub fn resolve_numeric_reply(message: &str) -> (out: String)
    ensures
        out@ == resolved(message@),
{
    let all = chars_of(message);
    let t = trimmed(&all);
    if t.len() == 1 {
        match Capability::from_digit(t[0]) {
            Some(c) => {
                return c.canonical_request().to_owned();
            },
            None => {},
        }
    }
    message.to_owned()
}

// ---------------------------------------------------------------------
// Scores
// ---------------------------------------------------------------------

/// Six confidence values, one for each capability, each from 0 to 10. They
/// are found independently of each other: all may be zero, all may be high.
#[derive(Debug, Clone, Copy, PartialEq, Eq, Structural)]
pub struct IntentScore {
    pub transcribe: u8,
    pub objects: u8,
    pub graphs: u8,
    pub ppt: u8,
    pub pdf: u8,
    pub summary: u8,
}

/// The score for transcription of a message in lowercase.
pub open spec fn transcribe_score(lower: Seq<char>) -> u8 {
    if contains(lower, "transcribe the video"@) || contains(lower, "transcript of"@) {
        10
    } else if contains(lower, "transcribe"@) || contains(lower, "what is said"@) || contains(
        lower,
        "what they say"@,
    ) {
        7
    } else {
        0
    }
}

/// The score for object detection of a message in lowercase.
pub open spec fn objects_score(lower: Seq<char>) -> u8 {
    if contains(lower, "what objects"@) || contains(lower, "detect objects"@) || contains(
        lower,
        "identify objects"@,
    ) {
        10
    } else if contains(lower, "object"@) || contains(lower, "what is shown"@) || contains(
        lower,
        "what's in the"@,
    ) {
        6
    } else {
        0
    }
}

/// The score for graph identification of a message in lowercase.
pub open spec fn graphs_score(lower: Seq<char>) -> u8 {
    if contains(lower, "are there"@) && (contains(lower, "graph"@) || contains(lower, "chart"@)) {
        10
    } else if contains(lower, "graph"@) || contains(lower, "chart"@) || contains(
        lower,
        "diagram"@,
    ) {
        7
    } else {
        0
    }
}

/// The score for slide generation of a message in lowercase.
pub open spec fn slides_score(lower: Seq<char>) -> u8 {
    if contains(lower, "create a powerpoint"@) || contains(lower, "generate powerpoint"@)
        || contains(lower, "make a ppt"@) {
        10
    } else if contains(lower, "powerpoint"@) || contains(lower, "ppt"@) || contains(
        lower,
        "presentation"@,
    ) {
        6
    } else {
        0
    }
}

/// A message in lowercase asks for a summary and for a document of it.
pub open spec fn asks_summary_document(lower: Seq<char>) -> bool {
    (contains(lower, "summarize"@) || contains(lower, "summary"@)) && contains(lower, "pdf"@)
}

/// The score for document generation of a message in lowercase: the
/// request for a summary as a document first, then a plain order to make
/// one, then the bare word.
pub open spec fn document_score(lower: Seq<char>) -> u8 {
    if asks_summary_document(lower) {
        10
    } else if contains(lower, "generate pdf"@) || contains(lower, "create pdf"@) {
        10
    } else if contains(lower, "pdf"@) {
        5
    } else {
        0
    }
}

/// The score for summarisation of a message in lowercase: the request for
/// a summary as a document first, then a plain request for a summary.
pub open spec fn summary_score(lower: Seq<char>) -> u8 {
    if asks_summary_document(lower) {
        10
    } else if contains(lower, "summarize"@) || contains(lower, "summary of"@) || contains(
        lower,
        "recap"@,
    ) {
        8
    } else {
        0
    }
}

/// A score that is above zero and below the low threshold.
pub open spec fn is_weak(v: u8) -> bool {
    0 < v < LOW_CONFIDENCE
}

/// 1 where the condition holds, else 0.
pub open spec fn one_if(b: bool) -> nat {
    if b {
        1
    } else {
        0
    }
}

/// The one capability if the condition holds, else none.
pub open spec fn pick(b: bool, c: Capability) -> Seq<Capability> {
    if b {
        seq![c]
    } else {
        Seq::empty()
    }
}

/// The line of a numbered question that offers `c`: its digit, a full
/// stop, a space, and the words of the offer.
pub open spec fn menu_line(c: Capability) -> Seq<char> {
    seq![ordinal_of(c)] + ". "@ + offer_text(c)
}

/// The lines of a numbered question that offers `opts`.
pub open spec fn menu_lines(opts: Seq<Capability>) -> Seq<Seq<char>> {
    Seq::new(opts.len(), |i: int| menu_line(opts[i]))
}

impl IntentScore {
    /// Every value is at most 10.
    pub open spec fn in_range(self) -> bool {
        &&& self.transcribe <= 10
        &&& self.objects <= 10
        &&& self.graphs <= 10
        &&& self.ppt <= 10
        &&& self.pdf <= 10
        &&& self.summary <= 10
    }

    /// The value for one capability.
    pub open spec fn of(self, c: Capability) -> u8 {
        match c {
            Capability::Transcribe => self.transcribe,
            Capability::Objects => self.objects,
            Capability::Graphs => self.graphs,
            Capability::Slides => self.ppt,
            Capability::Document => self.pdf,
            Capability::Summary => self.summary,
        }
    }

    /// The scores of a message that is already in lowercase.
    pub open spec fn scored(lower: Seq<char>) -> IntentScore {
        IntentScore {
            transcribe: transcribe_score(lower),
            objects: objects_score(lower),
            graphs: graphs_score(lower),
            ppt: slides_score(lower),
            pdf: document_score(lower),
            summary: summary_score(lower),
        }
    }

    /// The number of capabilities with a score above zero.
    pub open spec fn active_count(self) -> nat {
        one_if(self.transcribe > 0) + one_if(self.objects > 0) + one_if(self.graphs > 0) + one_if(
            self.ppt > 0,
        ) + one_if(self.pdf > 0) + one_if(self.summary > 0)
    }

    /// The number of capabilities with a weak score.
    pub open spec fn weak_count(self) -> nat {
        one_if(is_weak(self.transcribe)) + one_if(is_weak(self.objects)) + one_if(
            is_weak(self.graphs),
        ) + one_if(is_weak(self.ppt)) + one_if(is_weak(self.pdf)) + one_if(is_weak(self.summary))
    }

    /// The highest of the six values.
    pub open spec fn highest(self) -> u8 {
        let a = if self.transcribe >= self.objects {
            self.transcribe
        } else {
            self.objects
        };
        let b = if self.graphs >= self.ppt {
            self.graphs
        } else {
            self.ppt
        };
        let c = if self.pdf >= self.summary {
            self.pdf
        } else {
            self.summary
        };
        let ab = if a >= b {
            a
        } else {
            b
        };
        if ab >= c {
            ab
        } else {
            c
        }
    }

    /// The scores do not say clearly what is wanted: two or more weak
    /// signals, or one weak signal with no score at or above the low
    /// threshold beside it.
    pub open spec fn ambiguous(self) -> bool {
        self.weak_count() >= 2 || (self.weak_count() == 1 && self.highest() < LOW_CONFIDENCE)
    }

    /// Some capability has a score above zero.
    pub open spec fn any_intent(self) -> bool {
        self.highest() > 0
    }

    /// The capabilities that a question offers, in the order of
    /// declaration: each one with a score above zero, but the document
    /// only where no summary is in play.
    pub open spec fn offered(self) -> Seq<Capability> {
        pick(self.transcribe > 0, Capability::Transcribe) + pick(
            self.objects > 0,
            Capability::Objects,
        ) + pick(self.graphs > 0, Capability::Graphs) + pick(self.ppt > 0, Capability::Slides)
            + pick(self.pdf > 0 && self.summary == 0, Capability::Document) + pick(
            self.summary > 0,
            Capability::Summary,
        )
    }

    /// The question that is put to the user: the general one where nothing
    /// is offered, a yes-or-no question where one capability is, and a
    /// numbered list where several are, each under its own digit.
    pub open spec fn clarification(self) -> Seq<char> {
        let opts = self.offered();
        if opts.len() == 0 {
            GENERIC_MENU@
        } else if opts.len() == 1 {
            "Did you mean: "@ + offer_text(opts[0])
                + "? If so, please confirm or provide more details."@
        } else {
            "I detected multiple possible actions. Which would you like me to do?\n"@ + join_lines(
                menu_lines(opts),
            ) + "\n\nPlease specify by number or rephrase your request."@
        }
    }

    /// Scores a message that is already in lowercase. Each capability has
    /// its own list of phrases, from the most to the least specific, and
    /// takes the score of the first one that the message contains.
    pub fn from_lowercase(lower: &str) -> (score: IntentScore)
        ensures
            score == IntentScore::scored(lower@),
            score.in_range(),
    {
        let l = chars_of(lower);
        let transcribe: u8 = if includes(&l, "transcribe the video") || includes(&l, "transcript of") {
            10
        } else if includes(&l, "transcribe") || includes(&l, "what is said") || includes(&l, "what they say") {
            7
        } else {
            0
        };
        let objects: u8 = if includes(&l, "what objects") || includes(&l, "detect objects") || includes(
            &l,
            "identify objects",
        ) {
            10
        } else if includes(&l, "object") || includes(&l, "what is shown") || includes(&l, "what's in the") {
            6
        } else {
            0
        };
        let graph = includes(&l, "graph");
        let chart = includes(&l, "chart");
        let graphs: u8 = if includes(&l, "are there") && (graph || chart) {
            10
        } else if graph || chart || includes(&l, "diagram") {
            7
        } else {
            0
        };
        let ppt: u8 = if includes(&l, "create a powerpoint") || includes(&l, "generate powerpoint") || includes(
            &l,
            "make a ppt",
        ) {
            10
        } else if includes(&l, "powerpoint") || includes(&l, "ppt") || includes(&l, "presentation") {
            6
        } else {
            0
        };
        let summarize = includes(&l, "summarize");
        let names_pdf = includes(&l, "pdf");
        let both = (summarize || includes(&l, "summary")) && names_pdf;
        let pdf: u8 = if both {
            10
        } else if includes(&l, "generate pdf") || includes(&l, "create pdf") {
            10
        } else if names_pdf {
            5
        } else {
            0
        };
        let summary: u8 = if both {
            10
        } else if summarize || includes(&l, "summary of") || includes(&l, "recap") {
            8
        } else {
            0
        };
        IntentScore { transcribe, objects, graphs, ppt, pdf, summary }
    }

    /// Scores a message: the scores of its lowercase form.
    pub fn from_message(msg: &str) -> (score: IntentScore)
        ensures
            score == IntentScore::scored(lowercase(msg@)),
            score.in_range(),
    {
        let lower = to_lowercase(msg);
        IntentScore::from_lowercase(lower.as_str())
    }

    /// The highest of the six values.
    pub fn max_score(&self) -> (m: u8)
        ensures
            m == self.highest(),
            forall|c: Capability| self.of(c) <= m,
            exists|c: Capability| self.of(c) == m,
    {
        let mut m: u8 = self.transcribe;
        if self.objects > m {
            m = self.objects;
        }
        if self.graphs > m {
            m = self.graphs;
        }
        if self.ppt > m {
            m = self.ppt;
        }
        if self.pdf > m {
            m = self.pdf;
        }
        if self.summary > m {
            m = self.summary;
        }
        proof {
            assert forall|c: Capability| self.of(c) <= m by {
                match c {
                    Capability::Transcribe => {},
                    Capability::Objects => {},
                    Capability::Graphs => {},
                    Capability::Slides => {},
                    Capability::Document => {},
                    Capability::Summary => {},
                }
            }
            if m == self.transcribe {
                assert(self.of(Capability::Transcribe) == m);
            } else if m == self.objects {
                assert(self.of(Capability::Objects) == m);
            } else if m == self.graphs {
                assert(self.of(Capability::Graphs) == m);
            } else if m == self.ppt {
                assert(self.of(Capability::Slides) == m);
            } else if m == self.pdf {
                assert(self.of(Capability::Document) == m);
            } else {
                assert(self.of(Capability::Summary) == m);
            }
        }
        m
    }

    /// Whether some capability has a score above zero.
    pub fn has_any_intent(&self) -> (r: bool)
        ensures
            r == self.any_intent(),
            r == (self.active_count() > 0),
    {
        self.max_score() > 0
    }

    /// Whether the scores do not say clearly what is wanted.
    pub fn is_ambiguous(&self) -> (r: bool)
        ensures
            r == self.ambiguous(),
    {
        let mut weak: u8 = 0;
        if 0 < self.transcribe && self.transcribe < LOW_CONFIDENCE {
            weak += 1;
        }
        if 0 < self.objects && self.objects < LOW_CONFIDENCE {
            weak += 1;
        }
        if 0 < self.graphs && self.graphs < LOW_CONFIDENCE {
            weak += 1;
        }
        if 0 < self.ppt && self.ppt < LOW_CONFIDENCE {
            weak += 1;
        }
        if 0 < self.pdf && self.pdf < LOW_CONFIDENCE {
            weak += 1;
        }
        if 0 < self.summary && self.summary < LOW_CONFIDENCE {
            weak += 1;
        }
        weak >= 2 || (weak == 1 && self.max_score() < LOW_CONFIDENCE)
    }

    /// The capabilities that a question offers, in the order of
    /// declaration.
    pub fn offered_capabilities(&self) -> (opts: Vec<Capability>)
        ensures
            opts@ == self.offered(),
            opts.len() <= 6,
    {
        let mut opts: Vec<Capability> = Vec::new();
        if self.transcribe > 0 {
            opts.push(Capability::Transcribe);
        }
        if self.objects > 0 {
            opts.push(Capability::Objects);
        }
        if self.graphs > 0 {
            opts.push(Capability::Graphs);
        }
        if self.ppt > 0 {
            opts.push(Capability::Slides);
        }
        if self.pdf > 0 && self.summary == 0 {
            opts.push(Capability::Document);
        }
        if self.summary > 0 {
            opts.push(Capability::Summary);
        }
        opts
    }

    /// The question that is put to the user when the scores are not clear.
    pub fn get_clarification_message(&self) -> (out: String)
        ensures
            out@ == self.clarification(),
    {
        let opts = self.offered_capabilities();
        if opts.len() == 0 {
            return GENERIC_MENU.to_owned();
        }
        let mut out: Vec<char> = Vec::new();
        if opts.len() == 1 {
            push_str(&mut out, "Did you mean: ");
            push_str(&mut out, opts[0].offer_phrase());
            push_str(&mut out, "? If so, please confirm or provide more details.");
            return string_of(&out);
        }
        let mut lines: Vec<Vec<char>> = Vec::new();
        let mut i: usize = 0;
        while i < opts.len()
            invariant
                i <= opts.len(),
                lines.len() == i,
                forall|k: int| 0 <= k < i ==> lines@[k]@ == menu_line(opts@[k]),
            decreases opts.len() - i,
        {
            let mut line: Vec<char> = Vec::new();
            line.push(opts[i].ordinal());
            push_str(&mut line, ". ");
            push_str(&mut line, opts[i].offer_phrase());
            lines.push(line);
            i += 1;
        }
        assert(views(lines@) =~= menu_lines(opts@));
        let body = joined(&lines);
        push_str(&mut out, "I detected multiple possible actions. Which would you like me to do?\n");
        push_all(&mut out, &body);
        push_str(&mut out, "\n\nPlease specify by number or rephrase your request.");
        assert(out@ =~= self.clarification());
        string_of(&out)
    }
}

// ---------------------------------------------------------------------
// What holds of replies by number
// ---------------------------------------------------------------------

/// A reply that is, but for white space around it, the digit of a
/// capability is scored exactly as the request of that capability is:
/// the reply 4 as "create a powerpoint presentation".
pub proof fn law_numeric_reply(msg: Seq<char>, c: Capability)
    requires
        trim(msg) == seq![ordinal_of(c)],
    ensures
        resolved(msg) == request_text(c),
        IntentScore::scored(lowercase(resolved(msg))) == IntentScore::scored(
            lowercase(request_text(c)),
        ),
        c == Capability::Slides ==> resolved(msg) == "create a powerpoint presentation"@,
{
}

/// A message that is not a single digit from 1 to 6, once the white space
/// around it is taken off, is scored as it is.
pub proof fn law_other_replies(msg: Seq<char>)
    requires
        trim(msg).len() != 1 || capability_of(trim(msg)[0]) is None,
    ensures
        resolved(msg) == msg,
{
}

/// Each line of a numbered question carries the digit by which a reply
/// chooses the capability that the line offers.
pub proof fn law_menu_numbers(s: IntentScore, i: int)
    requires
        0 <= i < s.offered().len(),
    ensures
        menu_lines(s.offered())[i] == menu_line(s.offered()[i]),
        capability_of(menu_line(s.offered()[i])[0]) == Some(s.offered()[i]),
        s.of(s.offered()[i]) > 0,
{
}

} // verus!
