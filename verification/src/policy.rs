//! From scores to a decision: ask the user back, or go on with the steps
//! that the scores select.

use crate::intent::{
    asks_summary_document, is_weak, Capability, IntentScore, GENERIC_MENU, HIGH_CONFIDENCE,
    LOW_CONFIDENCE,
};
use vstd::prelude::*;

verus! {

/// One thing to do in a turn. A summary that is to become a document is a
/// step of its own, apart from a document alone.
#[derive(Debug, Clone, Copy, PartialEq, Eq, Structural)]
pub enum Step {
    Transcribe,
    Objects,
    Graphs,
    Slides,
    /// Summarise the conversation, then make a document.
    SummaryThenDocument,
    /// Make a document, with no summary before it.
    Document,
    /// Summarise the conversation, with no document after it.
    Summary,
}

/// What is done with a scored message.
#[derive(Debug, Clone, PartialEq, Eq)]
pub enum Decision {
    /// Nothing is invoked; the user is asked this question.
    Clarify(String),
    /// These steps are taken, in this order.
    Proceed(Vec<Step>),
}

/// What a `Decision` holds.
pub enum Verdict {
    Clarify(Seq<char>),
    Proceed(Seq<Step>),
}

impl View for Decision {
    type V = Verdict;

    open spec fn view(&self) -> Verdict {
        match self {
            Decision::Clarify(q) => Verdict::Clarify(q@),
            Decision::Proceed(steps) => Verdict::Proceed(steps@),
        }
    }
}

/// The one step if the condition holds, else none.
pub open spec fn take_if(b: bool, s: Step) -> Seq<Step> {
    if b {
        seq![s]
    } else {
        Seq::empty()
    }
}

/// A score that is high enough for its capability to be invoked.
pub open spec fn is_high(v: u8) -> bool {
    v >= HIGH_CONFIDENCE
}

/// The step that the scores of summary and document select between
/// them: the two as one step where both are high, and where only one of
/// them is high, that one alone.
pub open spec fn closing_step(s: IntentScore) -> Seq<Step> {
    if is_high(s.summary) && is_high(s.pdf) {
        seq![Step::SummaryThenDocument]
    } else if is_high(s.pdf) {
        seq![Step::Document]
    } else if is_high(s.summary) {
        seq![Step::Summary]
    } else {
        Seq::empty()
    }
}

/// The steps that the scores select, in the order in which they are
/// taken: each capability with a high score, with summary and document
/// last, as one step where both are high.
pub open spec fn plan_of(s: IntentScore) -> Seq<Step> {
    take_if(is_high(s.transcribe), Step::Transcribe) + take_if(is_high(s.objects), Step::Objects)
        + take_if(is_high(s.graphs), Step::Graphs) + take_if(is_high(s.ppt), Step::Slides)
        + closing_step(s)
}

/// The decision that the scores call for: the question made for them
/// where they are ambiguous, the general question where no capability has
/// a score above zero, and otherwise the selected steps.
pub open spec fn verdict(s: IntentScore) -> Verdict {
    if s.ambiguous() {
        Verdict::Clarify(s.clarification())
    } else if !s.any_intent() {
        Verdict::Clarify(GENERIC_MENU@)
    } else {
        Verdict::Proceed(plan_of(s))
    }
}

/// The steps that the scores select, in the order in which they are taken.
pub fn select_steps(score: &IntentScore) -> (steps: Vec<Step>)
    ensures
        steps@ == plan_of(*score),
        steps.len() <= 5,
{
    let mut steps: Vec<Step> = Vec::new();
    if score.transcribe >= HIGH_CONFIDENCE {
        steps.push(Step::Transcribe);
    }
    if score.objects >= HIGH_CONFIDENCE {
        steps.push(Step::Objects);
    }
    if score.graphs >= HIGH_CONFIDENCE {
        steps.push(Step::Graphs);
    }
    if score.ppt >= HIGH_CONFIDENCE {
        steps.push(Step::Slides);
    }
    if score.pdf >= HIGH_CONFIDENCE {
        if score.summary >= HIGH_CONFIDENCE {
            steps.push(Step::SummaryThenDocument);
        } else {
            steps.push(Step::Document);
        }
    } else if score.summary >= HIGH_CONFIDENCE {
        steps.push(Step::Summary);
    }
    steps
}

/// Decides what is done with a scored message.
pub fn decide(score: &IntentScore) -> (d: Decision)
    ensures
        d@ == verdict(*score),
{
    if score.is_ambiguous() {
        Decision::Clarify(score.get_clarification_message())
    } else if !score.has_any_intent() {
        Decision::Clarify(GENERIC_MENU.to_owned())
    } else {
        Decision::Proceed(select_steps(score))
    }
}

// ---------------------------------------------------------------------
// What holds of every score
// ---------------------------------------------------------------------

/// Where exactly one capability has a score above zero and that score is
/// weak, the scores are ambiguous; and they are so exactly because that
/// one score is the highest of all and lies below the low threshold.
pub proof fn law_single_weak_signal(s: IntentScore, c: Capability)
    requires
        is_weak(s.of(c)),
        forall|d: Capability| d != c ==> s.of(d) == 0,
    ensures
        s.ambiguous() <==> (s.of(c) == s.highest() && s.of(c) < LOW_CONFIDENCE),
        s.ambiguous(),
        verdict(s) is Clarify,
{
    assert(s.of(Capability::Transcribe) == s.transcribe);
    assert(s.of(Capability::Objects) == s.objects);
    assert(s.of(Capability::Graphs) == s.graphs);
    assert(s.of(Capability::Slides) == s.ppt);
    assert(s.of(Capability::Document) == s.pdf);
    assert(s.of(Capability::Summary) == s.summary);
}

/// Where one capability has a weak score and another has a score at or
/// above the low threshold, and no second one is weak, the scores are not
/// ambiguous.
pub proof fn law_weak_beside_strong(s: IntentScore)
    requires
        s.weak_count() == 1,
        s.highest() >= LOW_CONFIDENCE,
    ensures
        !s.ambiguous(),
        verdict(s) == Verdict::Proceed(plan_of(s)),
{
}

/// Two or more weak scores make the scores ambiguous, whatever the other
/// scores are: nothing is invoked, and the user is asked.
pub proof fn law_two_weak_signals(s: IntentScore)
    requires
        s.weak_count() >= 2,
    ensures
        s.ambiguous(),
        verdict(s) == Verdict::Clarify(s.clarification()),
{
}

/// The steps before the one that summary and document select.
pub open spec fn leading_steps(s: IntentScore) -> Seq<Step> {
    take_if(is_high(s.transcribe), Step::Transcribe) + take_if(is_high(s.objects), Step::Objects)
        + take_if(is_high(s.graphs), Step::Graphs) + take_if(is_high(s.ppt), Step::Slides)
}

/// None of the steps before the last is about summary or document.
proof fn lemma_leading_steps(s: IntentScore)
    ensures
        plan_of(s) == leading_steps(s) + closing_step(s),
        forall|i: int|
            0 <= i < leading_steps(s).len() ==> {
                let step = #[trigger] leading_steps(s)[i];
                step == Step::Transcribe || step == Step::Objects || step == Step::Graphs || step
                    == Step::Slides
            },
{
}

/// Where summary and document both have a high score and the scores are
/// not ambiguous, the two are taken as one step, summary first, and
/// neither is taken alone.
pub proof fn law_summary_with_document(s: IntentScore)
    requires
        is_high(s.summary),
        is_high(s.pdf),
        !s.ambiguous(),
    ensures
        verdict(s) == Verdict::Proceed(plan_of(s)),
        plan_of(s).last() == Step::SummaryThenDocument,
        plan_of(s).contains(Step::SummaryThenDocument),
        !plan_of(s).contains(Step::Document),
        !plan_of(s).contains(Step::Summary),
{
    lemma_leading_steps(s);
}

/// Where the document is the only capability with a score above zero, and
/// that score is high, the document is made alone.
pub proof fn law_document_alone(s: IntentScore)
    requires
        is_high(s.pdf),
        s.summary == 0,
        s.transcribe == 0,
        s.objects == 0,
        s.graphs == 0,
        s.ppt == 0,
    ensures
        !s.ambiguous(),
        verdict(s) == Verdict::Proceed(seq![Step::Document]),
{
}

/// A high document score without a high summary score selects the
/// document alone and no summary, whatever else is selected.
pub proof fn law_document_without_summary(s: IntentScore)
    requires
        is_high(s.pdf),
        !is_high(s.summary),
    ensures
        plan_of(s).last() == Step::Document,
        plan_of(s).contains(Step::Document),
        !plan_of(s).contains(Step::SummaryThenDocument),
        !plan_of(s).contains(Step::Summary),
{
    lemma_leading_steps(s);
}

/// A step is selected exactly when the scores behind it are high.
pub proof fn law_selection_by_threshold(s: IntentScore)
    ensures
        plan_of(s).contains(Step::Transcribe) <==> is_high(s.transcribe),
        plan_of(s).contains(Step::Objects) <==> is_high(s.objects),
        plan_of(s).contains(Step::Graphs) <==> is_high(s.graphs),
        plan_of(s).contains(Step::Slides) <==> is_high(s.ppt),
        plan_of(s).contains(Step::SummaryThenDocument) <==> is_high(s.summary) && is_high(s.pdf),
        plan_of(s).contains(Step::Document) <==> !is_high(s.summary) && is_high(s.pdf),
        plan_of(s).contains(Step::Summary) <==> is_high(s.summary) && !is_high(s.pdf),
{
    let p = plan_of(s);
    let a = take_if(is_high(s.transcribe), Step::Transcribe);
    let b = take_if(is_high(s.objects), Step::Objects);
    let c = take_if(is_high(s.graphs), Step::Graphs);
    let d = take_if(is_high(s.ppt), Step::Slides);
    let e = closing_step(s);
    if is_high(s.transcribe) {
        assert(p[0] == Step::Transcribe);
    }
    if is_high(s.objects) {
        assert(p[a.len() as int] == Step::Objects);
    }
    if is_high(s.graphs) {
        assert(p[(a.len() + b.len()) as int] == Step::Graphs);
    }
    if is_high(s.ppt) {
        assert(p[(a.len() + b.len() + c.len()) as int] == Step::Slides);
    }
    if e.len() > 0 {
        assert(p[(a.len() + b.len() + c.len() + d.len()) as int] == e[0]);
    }
    assert forall|i: int| 0 <= i < p.len() implies (p[i] == Step::Transcribe ==> is_high(
        s.transcribe,
    )) && (p[i] == Step::Objects ==> is_high(s.objects)) && (p[i] == Step::Graphs ==> is_high(
        s.graphs,
    )) && (p[i] == Step::Slides ==> is_high(s.ppt)) && (p[i] == Step::SummaryThenDocument
        ==> is_high(s.summary) && is_high(s.pdf)) && (p[i] == Step::Document ==> !is_high(
        s.summary,
    ) && is_high(s.pdf)) && (p[i] == Step::Summary ==> is_high(s.summary) && !is_high(s.pdf)) by {}
}

/// A message that names a summary and a pdf scores both at the maximum,
/// is never ambiguous, and is routed to the summary followed by the
/// document as one step, never to the document alone. `lower` is the
/// message in lowercase.
pub proof fn law_summary_document_request(lower: Seq<char>)
    requires
        asks_summary_document(lower),
    ensures
        IntentScore::scored(lower).summary == 10,
        IntentScore::scored(lower).pdf == 10,
        !IntentScore::scored(lower).ambiguous(),
        verdict(IntentScore::scored(lower)) == Verdict::Proceed(
            plan_of(IntentScore::scored(lower)),
        ),
        plan_of(IntentScore::scored(lower)).last() == Step::SummaryThenDocument,
        !plan_of(IntentScore::scored(lower)).contains(Step::Document),
{
    let s = IntentScore::scored(lower);
    law_summary_with_document(s);
}

/// No message has two weak scores, so a scored message is ambiguous only
/// by a bare mention of a pdf with nothing stronger beside it.
pub proof fn law_scored_messages(lower: Seq<char>)
    ensures
        IntentScore::scored(lower).in_range(),
        IntentScore::scored(lower).weak_count() <= 1,
        IntentScore::scored(lower).ambiguous() <==> IntentScore::scored(lower).pdf == 5
            && IntentScore::scored(lower).highest() == 5,
{
}

} // verus!
