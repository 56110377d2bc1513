//! One turn, from the user's message to the reply.
//!
//! The turn itself does nothing outside this crate. It says what is to be
//! done next (an `Action`), is told how that went (an `Event`), and moves
//! on. Whoever drives it stores the messages, reads the files and calls
//! the capabilities.

use crate::errors::{sanitize_err, sanitized_text};
use crate::intent::{resolve_numeric_reply, resolved, IntentScore};
use crate::policy::{decide, verdict, Decision, Step, Verdict};
use crate::reply::{format_conversational_response, reply_to};
use crate::text::{lowercase, push_str, string_of, texts};
use vstd::prelude::*;

verus! {

/// The number of times a capability call is made at most.
pub const MAX_ATTEMPTS: u8 = 2;

/// The time to wait before a call is made again, in milliseconds.
pub const RETRY_DELAY_MS: u64 = 350;

/// The number of messages that a summary looks back on.
pub const SUMMARY_MESSAGE_LIMIT: i32 = 100;

/// The key points that a generation is called with: none. Nothing is
/// drawn from the outcomes of earlier tasks.
pub fn key_points() -> (points: Vec<String>)
    ensures
        points@.len() == 0,
{
    Vec::new()
}

// ---------------------------------------------------------------------
// Tasks and their outcomes
// ---------------------------------------------------------------------

/// One piece of work in a turn. Each is a call of a capability, except
/// `PrepareFrame`, which gets the one picture that both vision tasks use.
#[derive(Debug, Clone, Copy, PartialEq, Eq, Structural)]
pub enum Task {
    Transcribe,
    PrepareFrame,
    DetectObjects,
    IdentifyGraphs,
    GenerateSlides,
    Summarize,
    GenerateDocument,
}

/// The task is one of the two that look at the frame.
pub open spec fn needs_frame(t: Task) -> bool {
    t == Task::DetectObjects || t == Task::IdentifyGraphs
}

/// The label that the result of a task carries in front of its text.
pub open spec fn label_of(t: Task) -> Seq<char> {
    match t {
        Task::Transcribe => "Transcription: "@,
        Task::PrepareFrame => ""@,
        Task::DetectObjects => "Objects: "@,
        Task::IdentifyGraphs => "Graphs: "@,
        Task::GenerateSlides => "PowerPoint: "@,
        Task::Summarize => "Summary: "@,
        Task::GenerateDocument => "PDF: "@,
    }
}

impl Task {
    /// The label that a result carries in front of its text.
    pub fn label(self) -> (s: &'static str)
        ensures
            s@ == label_of(self),
    {
        match self {
            Task::Transcribe => "Transcription: ",
            Task::PrepareFrame => "",
            Task::DetectObjects => "Objects: ",
            Task::IdentifyGraphs => "Graphs: ",
            Task::GenerateSlides => "PowerPoint: ",
            Task::Summarize => "Summary: ",
            Task::GenerateDocument => "PDF: ",
        }
    }
}

/// The one task if the condition holds, else none.
pub open spec fn task_if(b: bool, t: Task) -> Seq<Task> {
    if b {
        seq![t]
    } else {
        Seq::empty()
    }
}

/// The tasks that the steps `plan` call for, in the order in which they
/// are done. The frame is prepared once, before the first task that needs
/// it, however many do. A summary with a document is two tasks, the
/// summary first.
pub open spec fn tasks_of(plan: Seq<Step>) -> Seq<Task> {
    task_if(plan.contains(Step::Transcribe), Task::Transcribe) + task_if(
        plan.contains(Step::Objects) || plan.contains(Step::Graphs),
        Task::PrepareFrame,
    ) + task_if(plan.contains(Step::Objects), Task::DetectObjects) + task_if(
        plan.contains(Step::Graphs),
        Task::IdentifyGraphs,
    ) + task_if(plan.contains(Step::Slides), Task::GenerateSlides) + task_if(
        plan.contains(Step::SummaryThenDocument) || plan.contains(Step::Summary),
        Task::Summarize,
    ) + task_if(
        plan.contains(Step::SummaryThenDocument) || plan.contains(Step::Document),
        Task::GenerateDocument,
    )
}

/// Whether `plan` holds the step `s`.
pub fn selected(plan: &Vec<Step>, s: Step) -> (r: bool)
    ensures
        r == plan@.contains(s),
{
    let mut i: usize = 0;
    while i < plan.len()
        invariant
            i <= plan.len(),
            forall|k: int| 0 <= k < i ==> plan@[k] != s,
        decreases plan.len() - i,
    {
        if plan[i] == s {
            return true;
        }
        i += 1;
    }
    false
}

/// The tasks that the steps `plan` call for, in the order in which they
/// are done.
pub fn schedule(plan: &Vec<Step>) -> (tasks: Vec<Task>)
    ensures
        tasks@ == tasks_of(plan@),
        tasks.len() <= 7,
{
    let objects = selected(plan, Step::Objects);
    let graphs = selected(plan, Step::Graphs);
    let both = selected(plan, Step::SummaryThenDocument);
    let mut tasks: Vec<Task> = Vec::new();
    if selected(plan, Step::Transcribe) {
        tasks.push(Task::Transcribe);
    }
    if objects || graphs {
        tasks.push(Task::PrepareFrame);
    }
    if objects {
        tasks.push(Task::DetectObjects);
    }
    if graphs {
        tasks.push(Task::IdentifyGraphs);
    }
    if selected(plan, Step::Slides) {
        tasks.push(Task::GenerateSlides);
    }
    if both || selected(plan, Step::Summary) {
        tasks.push(Task::Summarize);
    }
    if both || selected(plan, Step::Document) {
        tasks.push(Task::GenerateDocument);
    }
    tasks
}

/// How a task ended: with a text for the user, or with the reason why it
/// failed, already made fit to be shown.
#[derive(Debug, Clone, PartialEq, Eq)]
pub enum CapabilityResult {
    Text(String),
    Failure(String),
}

/// What a `CapabilityResult` holds.
pub enum Finding {
    Text(Seq<char>),
    Failure(Seq<char>),
}

impl View for CapabilityResult {
    type V = Finding;

    open spec fn view(&self) -> Finding {
        match self {
            CapabilityResult::Text(t) => Finding::Text(t@),
            CapabilityResult::Failure(t) => Finding::Failure(t@),
        }
    }
}

/// The text of a finding, whichever kind it is.
pub open spec fn finding_text(f: Finding) -> Seq<char> {
    match f {
        Finding::Text(t) => t,
        Finding::Failure(t) => t,
    }
}

/// The result of one task.
#[derive(Debug, Clone, PartialEq, Eq)]
pub struct Outcome {
    pub task: Task,
    pub result: CapabilityResult,
}

/// What an `Outcome` holds.
pub struct OutcomeModel {
    pub task: Task,
    pub finding: Finding,
}

impl View for Outcome {
    type V = OutcomeModel;

    open spec fn view(&self) -> OutcomeModel {
        OutcomeModel { task: self.task, finding: self.result@ }
    }
}

/// What a vector of outcomes holds.
pub open spec fn outcome_models(v: Seq<Outcome>) -> Seq<OutcomeModel> {
    Seq::new(v.len(), |i: int| v[i]@)
}

/// The raw text of an outcome: the label of its task, then its text.
pub open spec fn raw_text(o: OutcomeModel) -> Seq<char> {
    label_of(o.task) + finding_text(o.finding)
}

/// The raw texts of the outcomes, in order.
pub open spec fn raw_parts(outcomes: Seq<OutcomeModel>) -> Seq<Seq<char>> {
    Seq::new(outcomes.len(), |i: int| raw_text(outcomes[i]))
}

impl Outcome {
    /// The raw text of this outcome: the label of its task, then its text.
    pub fn raw(&self) -> (out: String)
        ensures
            out@ == raw_text(self@),
    {
        let mut out: Vec<char> = Vec::new();
        push_str(&mut out, self.task.label());
        match &self.result {
            CapabilityResult::Text(t) => {
                push_str(&mut out, t.as_str());
            },
            CapabilityResult::Failure(t) => {
                push_str(&mut out, t.as_str());
            },
        }
        string_of(&out)
    }
}

/// The raw texts of the outcomes, in order.
pub fn raw_texts(outcomes: &Vec<Outcome>) -> (parts: Vec<String>)
    ensures
        texts(parts@) == raw_parts(outcome_models(outcomes@)),
{
    let mut parts: Vec<String> = Vec::new();
    let mut i: usize = 0;
    while i < outcomes.len()
        invariant
            i <= outcomes.len(),
            parts.len() == i,
            forall|k: int| 0 <= k < i ==> parts@[k]@ == raw_text(outcomes@[k]@),
        decreases outcomes.len() - i,
    {
        let part = outcomes[i].raw();
        parts.push(part);
        i += 1;
    }
    parts
}

// ---------------------------------------------------------------------
// What the turn asks for and what it is told
// ---------------------------------------------------------------------

/// What is to be done next for the turn.
#[derive(Debug, Clone, PartialEq, Eq)]
pub enum Action {
    /// Store the user's message.
    StoreUserMessage(String),
    /// Find the media file and read it, for the transcription.
    LoadMedia,
    /// Get the one frame that the vision tasks of this turn share.
    PrepareFrame,
    /// Wait `delay_ms` milliseconds, then call the capability of `task`.
    Invoke { task: Task, delay_ms: u64 },
    /// Store the reply.
    StoreReply(String),
    /// The turn is over: this is its reply.
    Reply(String),
    /// The turn is over: a message could not be stored.
    Fail(String),
    /// The event answered nothing that was asked for: there is nothing to do.
    Ignore,
}

/// What an `Action` holds.
pub enum ActionModel {
    StoreUserMessage(Seq<char>),
    LoadMedia,
    PrepareFrame,
    Invoke { task: Task, delay_ms: u64 },
    StoreReply(Seq<char>),
    Reply(Seq<char>),
    Fail(Seq<char>),
    Ignore,
}

impl View for Action {
    type V = ActionModel;

    open spec fn view(&self) -> ActionModel {
        match self {
            Action::StoreUserMessage(t) => ActionModel::StoreUserMessage(t@),
            Action::LoadMedia => ActionModel::LoadMedia,
            Action::PrepareFrame => ActionModel::PrepareFrame,
            Action::Invoke { task, delay_ms } => ActionModel::Invoke {
                task: *task,
                delay_ms: *delay_ms,
            },
            Action::StoreReply(t) => ActionModel::StoreReply(t@),
            Action::Reply(t) => ActionModel::Reply(t@),
            Action::Fail(t) => ActionModel::Fail(t@),
            Action::Ignore => ActionModel::Ignore,
        }
    }
}

/// How the last action went.
#[derive(Debug, Clone, PartialEq, Eq)]
pub enum Event {
    /// The message was stored.
    Stored,
    /// The message could not be stored, for this reason.
    StoreFailed(String),
    /// The media file was read.
    MediaLoaded,
    /// No media file is known for this conversation.
    MediaMissing,
    /// The media file could not be looked up, for this reason.
    MediaLookupFailed(String),
    /// The media file could not be read, for this reason.
    MediaUnreadable(String),
    /// The frame is there.
    FrameReady,
    /// The frame could not be made, for this reason.
    FrameFailed(String),
    /// The frame was made but could not be read, for this reason.
    FrameUnreadable(String),
    /// The capability answered with this text.
    CallSucceeded(String),
    /// The capability call failed with this error.
    CallFailed(String),
}

/// Where a turn stands: what it is waiting for.
#[derive(Debug, Clone, Copy, PartialEq, Eq, Structural)]
pub enum Phase {
    /// For the user's message to be stored.
    StoringUser,
    /// For the media file.
    LoadingMedia,
    /// For the frame.
    PreparingFrame,
    /// For a capability to answer.
    Calling,
    /// For the reply to be stored.
    StoringReply,
    /// For nothing: the reply was handed out.
    Finished,
    /// For nothing: a message could not be stored.
    Failed,
}

// ---------------------------------------------------------------------
// The turn as a value
// ---------------------------------------------------------------------

/// The work of a turn: what is to be done, how far it has got, and what
/// has come of it.
pub struct JobModel {
    pub file_id: Seq<char>,
    pub message: Seq<char>,
    pub tasks: Seq<Task>,
    /// The number of tasks that are over.
    pub cursor: int,
    /// The frame was prepared and is there.
    pub frame_ready: bool,
    pub outcomes: Seq<OutcomeModel>,
}

/// A turn: its work, what it is waiting for, how often the call that it
/// is waiting for has failed, and its reply once that is written.
pub struct TurnModel {
    pub phase: Phase,
    pub failures: int,
    pub reply: Seq<char>,
    pub job: JobModel,
}

impl TurnModel {
    /// What holds of every turn.
    pub open spec fn wf(self) -> bool {
        &&& 0 <= self.job.cursor <= self.job.tasks.len()
        &&& 0 <= self.failures < MAX_ATTEMPTS
        &&& self.phase != Phase::Calling ==> self.failures == 0
        &&& self.phase == Phase::LoadingMedia ==> self.job.cursor < self.job.tasks.len()
            && self.job.tasks[self.job.cursor] == Task::Transcribe
        &&& self.phase == Phase::PreparingFrame ==> self.job.cursor < self.job.tasks.len()
            && self.job.tasks[self.job.cursor] == Task::PrepareFrame
        &&& self.phase == Phase::Calling ==> self.job.cursor < self.job.tasks.len()
            && self.job.tasks[self.job.cursor] != Task::PrepareFrame
    }

    /// The task that the turn is busy with.
    pub open spec fn current(self) -> Task {
        self.job.tasks[self.job.cursor]
    }
}

/// The turn that begins with `message`: nothing is planned yet, and the
/// user's message is to be stored.
pub open spec fn opening(file_id: Seq<char>, message: Seq<char>) -> TurnModel {
    TurnModel {
        phase: Phase::StoringUser,
        failures: 0,
        reply: Seq::empty(),
        job: JobModel {
            file_id,
            message,
            tasks: Seq::empty(),
            cursor: 0,
            frame_ready: false,
            outcomes: Seq::empty(),
        },
    }
}

/// The job after its current task has ended with `finding`.
pub open spec fn recorded(job: JobModel, finding: Finding) -> JobModel {
    JobModel {
        cursor: job.cursor + 1,
        outcomes: job.outcomes.push(OutcomeModel { task: job.tasks[job.cursor], finding }),
        ..job
    }
}

/// The turn that waits in `phase` on `job`, with no failed call.
pub open spec fn waiting(phase: Phase, job: JobModel) -> TurnModel {
    TurnModel { phase, failures: 0, reply: Seq::empty(), job }
}

/// What happens when the next task of `job` is taken up. A vision task
/// without a frame is over at once, as unavailable, and the task after it
/// is taken up. Every other task asks for something to be done. With no
/// task left, the reply is written from the outcomes and is to be stored.
pub open spec fn dispatch(job: JobModel) -> (TurnModel, ActionModel)
    decreases job.tasks.len() - job.cursor,
{
    if job.cursor < 0 || job.cursor >= job.tasks.len() {
        let text = reply_to(raw_parts(job.outcomes));
        (
            TurnModel { phase: Phase::StoringReply, failures: 0, reply: text, job },
            ActionModel::StoreReply(text),
        )
    } else {
        let task = job.tasks[job.cursor];
        if task == Task::Transcribe {
            (waiting(Phase::LoadingMedia, job), ActionModel::LoadMedia)
        } else if task == Task::PrepareFrame {
            (waiting(Phase::PreparingFrame, job), ActionModel::PrepareFrame)
        } else if needs_frame(task) && !job.frame_ready {
            dispatch(recorded(job, Finding::Failure("Vision unavailable"@)))
        } else {
            (waiting(Phase::Calling, job), ActionModel::Invoke { task, delay_ms: 0 })
        }
    }
}

/// What happens when the user's message is stored: the message is
/// scored, with a reply by number read as the request that it stands for.
/// Either a question is to be stored as the reply, or the tasks are
/// planned and the first one is taken up.
pub open spec fn classified(job: JobModel) -> (TurnModel, ActionModel) {
    match verdict(IntentScore::scored(lowercase(resolved(job.message)))) {
        Verdict::Clarify(question) => (
            TurnModel { phase: Phase::StoringReply, failures: 0, reply: question, job },
            ActionModel::StoreReply(question),
        ),
        Verdict::Proceed(plan) => dispatch(JobModel { tasks: tasks_of(plan), cursor: 0, ..job }),
    }
}

/// The text of a local failure: what went wrong, then the reason.
pub open spec fn because(what: Seq<char>, reason: Seq<char>) -> Finding {
    Finding::Failure(what + reason)
}

/// The finding with which the event `e` ends the task that the turn `m`
/// is busy with, if it ends it. A missing or unreadable file ends its
/// task at once. A failed call ends its task only when no attempt is
/// left, and then with its sanitized error.
pub open spec fn finding_of(m: TurnModel, e: Event) -> Option<Finding> {
    match (m.phase, e) {
        (Phase::LoadingMedia, Event::MediaMissing) => Some(
            Finding::Failure("File not found for transcription"@),
        ),
        (Phase::LoadingMedia, Event::MediaLookupFailed(err)) => Some(
            because("Lookup error: "@, err@),
        ),
        (Phase::LoadingMedia, Event::MediaUnreadable(err)) => Some(
            because("Failed to read file: "@, err@),
        ),
        (Phase::PreparingFrame, Event::FrameFailed(err)) => Some(
            because("Failed to generate thumbnail: "@, err@),
        ),
        (Phase::PreparingFrame, Event::FrameUnreadable(err)) => Some(
            because("Failed to read thumbnail: "@, err@),
        ),
        (Phase::Calling, Event::CallSucceeded(text)) => Some(Finding::Text(text@)),
        (Phase::Calling, Event::CallFailed(err)) => if m.failures + 1 < MAX_ATTEMPTS {
            None
        } else {
            Some(Finding::Failure(sanitized_text(err@)))
        },
        _ => None,
    }
}

/// What the event `e` makes of the turn `m`: the turn after it, and what
/// is to be done next.
///
/// An event that ends the current task records its finding, and the next
/// task is taken up. A failed call with an attempt left is made once
/// more, after a delay. No outcome ends the turn: only a message that
/// cannot be stored does. An event that does not answer what the turn is
/// waiting for changes nothing.
pub open spec fn step_model(m: TurnModel, e: Event) -> (TurnModel, ActionModel) {
    let job = m.job;
    match finding_of(m, e) {
        Some(finding) => dispatch(recorded(job, finding)),
        None => match (m.phase, e) {
            (Phase::StoringUser, Event::Stored) => classified(job),
            (Phase::StoringUser, Event::StoreFailed(err)) => (
                TurnModel { phase: Phase::Failed, ..m },
                ActionModel::Fail(err@),
            ),
            (Phase::LoadingMedia, Event::MediaLoaded) => (
                waiting(Phase::Calling, job),
                ActionModel::Invoke { task: Task::Transcribe, delay_ms: 0 },
            ),
            (Phase::PreparingFrame, Event::FrameReady) => dispatch(
                JobModel { cursor: job.cursor + 1, frame_ready: true, ..job },
            ),
            (Phase::Calling, Event::CallFailed(err)) => (
                TurnModel { failures: m.failures + 1, ..m },
                ActionModel::Invoke { task: job.tasks[job.cursor], delay_ms: RETRY_DELAY_MS },
            ),
            (Phase::StoringReply, Event::Stored) => (
                TurnModel { phase: Phase::Finished, ..m },
                ActionModel::Reply(m.reply),
            ),
            (Phase::StoringReply, Event::StoreFailed(err)) => (
                TurnModel { phase: Phase::Failed, ..m },
                ActionModel::Fail(err@),
            ),
            _ => (m, ActionModel::Ignore),
        },
    }
}

/// The work of a turn.
struct Job {
    file_id: String,
    message: String,
    tasks: Vec<Task>,
    cursor: usize,
    frame_ready: bool,
    outcomes: Vec<Outcome>,
}

impl View for Job {
    type V = JobModel;

    closed spec fn view(&self) -> JobModel {
        JobModel {
            file_id: self.file_id@,
            message: self.message@,
            tasks: self.tasks@,
            cursor: self.cursor as int,
            frame_ready: self.frame_ready,
            outcomes: outcome_models(self.outcomes@),
        }
    }
}

/// One turn of the conversation about a file.
pub struct Turn {
    phase: Phase,
    failures: u8,
    reply: String,
    job: Job,
}

impl View for Turn {
    type V = TurnModel;

    closed spec fn view(&self) -> TurnModel {
        TurnModel {
            phase: self.phase,
            failures: self.failures as int,
            reply: self.reply@,
            job: self.job@,
        }
    }
}

/// Ends the current task of `job` with `result` and takes up the next.
fn record(job: Job, result: CapabilityResult) -> (r: (Turn, Action))
    requires
        job.cursor < job.tasks.len(),
    ensures
        (r.0@, r.1@) == dispatch(recorded(job@, result@)),
{
    let mut job = job;
    let ghost before = job@;
    let task = job.tasks[job.cursor];
    job.outcomes.push(Outcome { task, result });
    job.cursor = job.cursor + 1;
    assert(job@.outcomes =~= recorded(before, result@).outcomes);
    take_up(job)
}

/// Ends the current task of `job` with a failure that is `what` followed
/// by `reason`, and takes up the next.
fn record_failure(job: Job, what: &str, reason: &str) -> (r: (Turn, Action))
    requires
        job.cursor < job.tasks.len(),
    ensures
        (r.0@, r.1@) == dispatch(recorded(job@, because(what@, reason@))),
{
    let mut text: Vec<char> = Vec::new();
    push_str(&mut text, what);
    push_str(&mut text, reason);
    record(job, CapabilityResult::Failure(string_of(&text)))
}

/// Takes up the next task of `job`.
#[verifier::loop_isolation(false)]
fn take_up(job: Job) -> (r: (Turn, Action))
    requires
        job.cursor <= job.tasks.len(),
    ensures
        (r.0@, r.1@) == dispatch(job@),
{
    let mut job = job;
    let ghost start = job@;
    while job.cursor < job.tasks.len()
        invariant
            job.cursor <= job.tasks.len(),
            dispatch(job@) == dispatch(start),
        decreases job.tasks.len() - job.cursor,
    {
        let task = job.tasks[job.cursor];
        if task == Task::Transcribe {
            return (
                Turn { phase: Phase::LoadingMedia, failures: 0, reply: String::new(), job },
                Action::LoadMedia,
            );
        } else if task == Task::PrepareFrame {
            return (
                Turn { phase: Phase::PreparingFrame, failures: 0, reply: String::new(), job },
                Action::PrepareFrame,
            );
        } else if (task == Task::DetectObjects || task == Task::IdentifyGraphs)
            && !job.frame_ready {
            let ghost before = job@;
            job.outcomes.push(
                Outcome {
                    task,
                    result: CapabilityResult::Failure("Vision unavailable".to_owned()),
                },
            );
            job.cursor = job.cursor + 1;
            assert(job@.outcomes =~= recorded(
                before,
                Finding::Failure("Vision unavailable"@),
            ).outcomes);
        } else {
            return (
                Turn { phase: Phase::Calling, failures: 0, reply: String::new(), job },
                Action::Invoke { task, delay_ms: 0 },
            );
        }
    }
    let parts = raw_texts(&job.outcomes);
    let text = format_conversational_response(
        job.file_id.as_str(),
        job.message.as_str(),
        parts.as_slice(),
    );
    let copy = text.clone();
    (Turn { phase: Phase::StoringReply, failures: 0, reply: text, job }, Action::StoreReply(copy))
}

/// Scores the message of `job` and either asks back or plans the tasks
/// and takes up the first.
fn classify(job: Job) -> (r: (Turn, Action))
    requires
        job.cursor <= job.tasks.len(),
    ensures
        (r.0@, r.1@) == classified(job@),
{
    let mut job = job;
    let request = resolve_numeric_reply(job.message.as_str());
    let score = IntentScore::from_message(request.as_str());
    match decide(&score) {
        Decision::Clarify(question) => {
            let copy = question.clone();
            (
                Turn { phase: Phase::StoringReply, failures: 0, reply: question, job },
                Action::StoreReply(copy),
            )
        },
        Decision::Proceed(plan) => {
            job.tasks = schedule(&plan);
            job.cursor = 0;
            take_up(job)
        },
    }
}

impl Turn {
    #[verifier::type_invariant]
    spec fn valid(self) -> bool {
        self@.wf()
    }

    /// Begins the turn for `message` in the conversation about the file
    /// `file_id`. The first thing to be done is to store the message.
    pub fn start(file_id: &str, message: &str) -> (r: (Turn, Action))
        ensures
            r.0@ == opening(file_id@, message@),
            r.1@ == ActionModel::StoreUserMessage(message@),
            r.0@.wf(),
    {
        let job = Job {
            file_id: file_id.to_owned(),
            message: message.to_owned(),
            tasks: Vec::new(),
            cursor: 0,
            frame_ready: false,
            outcomes: Vec::new(),
        };
        assert(job@.outcomes =~= Seq::empty());
        let turn = Turn { phase: Phase::StoringUser, failures: 0, reply: String::new(), job };
        (turn, Action::StoreUserMessage(message.to_owned()))
    }

    /// What the turn is waiting for.
    pub fn phase(&self) -> (p: Phase)
        ensures
            p == self@.phase,
    {
        self.phase
    }

    /// Whether the turn is over: nothing more is to be done for it.
    pub fn is_over(&self) -> (r: bool)
        ensures
            r == (self@.phase == Phase::Finished || self@.phase == Phase::Failed),
    {
        self.phase == Phase::Finished || self.phase == Phase::Failed
    }

    /// The file that the conversation is about.
    pub fn file_id(&self) -> (s: &str)
        ensures
            s@ == self@.job.file_id,
    {
        self.job.file_id.as_str()
    }

    /// The user's message, as it came.
    pub fn message(&self) -> (s: &str)
        ensures
            s@ == self@.job.message,
    {
        self.job.message.as_str()
    }

    /// The tasks of the turn, in the order in which they are done.
    pub fn tasks(&self) -> (v: &Vec<Task>)
        ensures
            v@ == self@.job.tasks,
    {
        &self.job.tasks
    }

    /// The outcomes so far, in the order in which they came about.
    pub fn outcomes(&self) -> (v: &Vec<Outcome>)
        ensures
            outcome_models(v@) == self@.job.outcomes,
    {
        &self.job.outcomes
    }

    /// Takes the event `event` and says what is to be done next.
    pub fn step(self, event: Event) -> (r: (Turn, Action))
        ensures
            (r.0@, r.1@) == step_model(self@, event),
            self@.wf(),
            r.0@.wf(),
    {
        proof {
            use_type_invariant(&self);
        }
        let Turn { phase, failures, reply, job } = self;
        let r = match phase {
            Phase::StoringUser => match event {
                Event::Stored => classify(job),
                Event::StoreFailed(err) => (
                    Turn { phase: Phase::Failed, failures, reply, job },
                    Action::Fail(err),
                ),
                _ => (Turn { phase, failures, reply, job }, Action::Ignore),
            },
            Phase::LoadingMedia => match event {
                Event::MediaLoaded => (
                    Turn { phase: Phase::Calling, failures: 0, reply: String::new(), job },
                    Action::Invoke { task: Task::Transcribe, delay_ms: 0 },
                ),
                Event::MediaMissing => record(
                    job,
                    CapabilityResult::Failure("File not found for transcription".to_owned()),
                ),
                Event::MediaLookupFailed(err) => record_failure(
                    job,
                    "Lookup error: ",
                    err.as_str(),
                ),
                Event::MediaUnreadable(err) => record_failure(
                    job,
                    "Failed to read file: ",
                    err.as_str(),
                ),
                _ => (Turn { phase, failures, reply, job }, Action::Ignore),
            },
            Phase::PreparingFrame => match event {
                Event::FrameReady => {
                    assert(job.cursor < job.tasks.len());
                    let Job { file_id, message, tasks, cursor, frame_ready: _, outcomes } = job;
                    take_up(
                        Job {
                            file_id,
                            message,
                            tasks,
                            cursor: cursor + 1,
                            frame_ready: true,
                            outcomes,
                        },
                    )
                },
                Event::FrameFailed(err) => record_failure(
                    job,
                    "Failed to generate thumbnail: ",
                    err.as_str(),
                ),
                Event::FrameUnreadable(err) => record_failure(
                    job,
                    "Failed to read thumbnail: ",
                    err.as_str(),
                ),
                _ => (Turn { phase, failures, reply, job }, Action::Ignore),
            },
            Phase::Calling => match event {
                Event::CallSucceeded(text) => record(job, CapabilityResult::Text(text)),
                Event::CallFailed(err) => {
                    if failures + 1 < MAX_ATTEMPTS {
                        let task = job.tasks[job.cursor];
                        (
                            Turn { phase, failures: failures + 1, reply, job },
                            Action::Invoke { task, delay_ms: RETRY_DELAY_MS },
                        )
                    } else {
                        record(job, CapabilityResult::Failure(sanitize_err(err.as_str())))
                    }
                },
                _ => (Turn { phase, failures, reply, job }, Action::Ignore),
            },
            Phase::StoringReply => match event {
                Event::Stored => {
                    let copy = reply.clone();
                    (Turn { phase: Phase::Finished, failures, reply, job }, Action::Reply(copy))
                },
                Event::StoreFailed(err) => (
                    Turn { phase: Phase::Failed, failures, reply, job },
                    Action::Fail(err),
                ),
                _ => (Turn { phase, failures, reply, job }, Action::Ignore),
            },
            _ => (Turn { phase, failures, reply, job }, Action::Ignore),
        };
        proof {
            use_type_invariant(&r.0);
        }
        r
    }
}

// ---------------------------------------------------------------------
// What holds of every turn
// ---------------------------------------------------------------------

/// The turn is at work: it is neither storing the reply nor over.
pub open spec fn at_work(p: Phase) -> bool {
    p == Phase::StoringUser || p == Phase::LoadingMedia || p == Phase::PreparingFrame || p
        == Phase::Calling
}

/// What taking up the next task leads to: a valid turn that waits for a
/// task or for the reply to be stored, on the same tasks, no further
/// back, with every earlier outcome in place. The reply is to be stored
/// exactly when no task is left, and it is then the reply to the outcomes.
pub proof fn lemma_dispatch(job: JobModel)
    requires
        0 <= job.cursor <= job.tasks.len(),
    ensures
        ({
            let (turn, action) = dispatch(job);
            &&& turn.wf()
            &&& turn.job.tasks == job.tasks
            &&& turn.job.file_id == job.file_id
            &&& turn.job.message == job.message
            &&& turn.job.cursor >= job.cursor
            &&& turn.job.outcomes.len() >= job.outcomes.len()
            &&& turn.job.outcomes.take(job.outcomes.len() as int) == job.outcomes
            &&& turn.phase == Phase::LoadingMedia || turn.phase == Phase::PreparingFrame
                || turn.phase == Phase::Calling || turn.phase == Phase::StoringReply
            &&& turn.phase == Phase::StoringReply ==> {
                &&& action == ActionModel::StoreReply(turn.reply)
                &&& turn.reply == reply_to(raw_parts(turn.job.outcomes))
                &&& turn.job.cursor == turn.job.tasks.len()
            }
            &&& turn.phase == Phase::LoadingMedia ==> action == ActionModel::LoadMedia
            &&& turn.phase == Phase::PreparingFrame ==> action == ActionModel::PrepareFrame
            &&& turn.phase == Phase::Calling ==> action == ActionModel::Invoke {
                task: turn.current(),
                delay_ms: 0,
            }
        }),
    decreases job.tasks.len() - job.cursor,
{
    if job.cursor < job.tasks.len() {
        let task = job.tasks[job.cursor];
        if task != Task::Transcribe && task != Task::PrepareFrame && needs_frame(task)
            && !job.frame_ready {
            let next = recorded(job, Finding::Failure("Vision unavailable"@));
            lemma_dispatch(next);
            let (turn, action) = dispatch(next);
            assert(next.outcomes.take(job.outcomes.len() as int) =~= job.outcomes);
            assert(turn.job.outcomes.take(job.outcomes.len() as int) =~= turn.job.outcomes.take(
                next.outcomes.len() as int,
            ).take(job.outcomes.len() as int));
        } else {
            assert(job.outcomes.take(job.outcomes.len() as int) =~= job.outcomes);
        }
    } else {
        assert(job.outcomes.take(job.outcomes.len() as int) =~= job.outcomes);
    }
}

/// The turn `next` stands on the same file and message as the turn `m`,
/// no further back in its tasks, with every earlier outcome in place.
pub open spec fn carries_on(m: TurnModel, next: TurnModel) -> bool {
    &&& next.job.file_id == m.job.file_id
    &&& next.job.message == m.job.message
    &&& m.phase != Phase::StoringUser ==> next.job.tasks == m.job.tasks
    &&& m.phase != Phase::StoringUser ==> next.job.cursor >= m.job.cursor
    &&& next.job.outcomes.len() >= m.job.outcomes.len()
    &&& next.job.outcomes.take(m.job.outcomes.len() as int) == m.job.outcomes
}

/// What one step of a valid turn leads to, whichever event it takes.
proof fn lemma_step(m: TurnModel, e: Event)
    requires
        m.wf(),
    ensures
        step_model(m, e).0.wf(),
        carries_on(m, step_model(m, e).0),
        follows(m, step_model(m, e).0, step_model(m, e).1),
        step_model(m, e).0.phase == Phase::Failed && m.phase != Phase::Failed ==> e is StoreFailed
            && (m.phase == Phase::StoringUser || m.phase == Phase::StoringReply),
{
    let job = m.job;
    assert(job.outcomes.take(job.outcomes.len() as int) =~= job.outcomes);
    match finding_of(m, e) {
        Some(finding) => {
            lemma_recorded(job, finding);
        },
        None => {
            match (m.phase, e) {
                (Phase::StoringUser, Event::Stored) => {
                    match verdict(IntentScore::scored(lowercase(resolved(job.message)))) {
                        Verdict::Clarify(question) => {},
                        Verdict::Proceed(plan) => {
                            lemma_dispatch(JobModel { tasks: tasks_of(plan), cursor: 0, ..job });
                        },
                    }
                },
                (Phase::PreparingFrame, Event::FrameReady) => {
                    lemma_dispatch(JobModel { cursor: job.cursor + 1, frame_ready: true, ..job });
                },
                _ => {},
            }
        },
    }
}

/// One step of a valid turn gives a valid turn, on the same file and
/// message, no further back in its tasks, with every earlier outcome in
/// place.
pub proof fn law_step_keeps_order(m: TurnModel, e: Event)
    requires
        m.wf(),
    ensures
        step_model(m, e).0.wf(),
        carries_on(m, step_model(m, e).0),
{
    lemma_step(m, e);
}

/// What ending the current task with `finding` leads to: the finding is
/// the next outcome, under the task that was current, and the turn has
/// moved past that task.
pub proof fn lemma_recorded(job: JobModel, finding: Finding)
    requires
        0 <= job.cursor < job.tasks.len(),
    ensures
        ({
            let (turn, action) = dispatch(recorded(job, finding));
            &&& turn.wf()
            &&& turn.job.tasks == job.tasks
            &&& turn.job.file_id == job.file_id
            &&& turn.job.message == job.message
            &&& turn.job.cursor > job.cursor
            &&& turn.job.outcomes.len() > job.outcomes.len()
            &&& turn.job.outcomes.take(job.outcomes.len() as int) == job.outcomes
            &&& turn.job.outcomes[job.outcomes.len() as int] == OutcomeModel {
                task: job.tasks[job.cursor],
                finding,
            }
            &&& at_work(turn.phase) || turn.phase == Phase::StoringReply
            &&& turn.phase == Phase::StoringReply <==> action is StoreReply
            &&& action is StoreReply ==> action == ActionModel::StoreReply(turn.reply)
            &&& !(action is StoreUserMessage) && !(action is Reply) && !(action is Fail)
            &&& action matches ActionModel::Invoke { delay_ms, .. } ==> delay_ms == 0
        }),
{
    let next = recorded(job, finding);
    lemma_dispatch(next);
    let (turn, action) = dispatch(next);
    let n = job.outcomes.len() as int;
    assert(turn.job.outcomes.take(n + 1) == next.outcomes);
    assert(turn.job.outcomes.take(n + 1)[n] == next.outcomes[n]);
    assert(turn.job.outcomes.take(n) =~= turn.job.outcomes.take(n + 1).take(n));
    assert(next.outcomes.take(n) =~= job.outcomes);
}

/// A call that fails twice in a row is not made a third time. The first
/// failure asks for the same call once more, after the delay, and records
/// nothing. The second failure ends the task with exactly one outcome,
/// the sanitized text of the second error as a failure, and what is asked
/// for next is no repetition.
pub proof fn law_retry_bound(m: TurnModel, first: String, second: String)
    requires
        m.wf(),
        m.phase == Phase::Calling,
        m.failures == 0,
    ensures
        ({
            let once = step_model(m, Event::CallFailed(first));
            let twice = step_model(once.0, Event::CallFailed(second));
            let failure = Finding::Failure(sanitized_text(second@));
            let n = m.job.outcomes.len() as int;
            &&& once.1 == ActionModel::Invoke { task: m.current(), delay_ms: RETRY_DELAY_MS }
            &&& once.0.job == m.job
            &&& once.0.phase == Phase::Calling
            &&& twice == dispatch(recorded(m.job, failure))
            &&& twice.0.job.cursor > m.job.cursor
            &&& twice.0.job.outcomes.take(n + 1) == m.job.outcomes.push(
                OutcomeModel { task: m.current(), finding: failure },
            )
            &&& twice.1 matches ActionModel::Invoke { delay_ms, .. } ==> delay_ms == 0
        }),
{
    let failure = Finding::Failure(sanitized_text(second@));
    lemma_recorded(m.job, failure);
    let twice = dispatch(recorded(m.job, failure));
    let n = m.job.outcomes.len() as int;
    assert(twice.0.job.outcomes.take(n + 1) =~= m.job.outcomes.push(
        OutcomeModel { task: m.current(), finding: failure },
    )) by {
        assert(twice.0.job.outcomes.take(n + 1).take(n) =~= twice.0.job.outcomes.take(n));
    }
}

/// A call that succeeds, at the first or at the second attempt, ends its
/// task with the text that came back.
pub proof fn law_success_is_recorded(m: TurnModel, text: String)
    requires
        m.wf(),
        m.phase == Phase::Calling,
    ensures
        ({
            let next = step_model(m, Event::CallSucceeded(text));
            let n = m.job.outcomes.len() as int;
            &&& next == dispatch(recorded(m.job, Finding::Text(text@)))
            &&& next.0.job.cursor > m.job.cursor
            &&& next.0.job.outcomes[n] == OutcomeModel {
                task: m.current(),
                finding: Finding::Text(text@),
            }
        }),
{
    lemma_recorded(m.job, Finding::Text(text@));
}

/// The turn `next` and the request `action` can follow the turn `m` in
/// one step, as far as phases and requests to store go.
pub open spec fn follows(m: TurnModel, next: TurnModel, action: ActionModel) -> bool {
    &&& !(action is StoreUserMessage)
    &&& action is StoreReply <==> at_work(m.phase) && next.phase == Phase::StoringReply
    &&& action is StoreReply ==> action == ActionModel::StoreReply(next.reply)
    &&& action is Reply <==> m.phase == Phase::StoringReply && next.phase == Phase::Finished
    &&& action is Reply ==> action == ActionModel::Reply(m.reply) && next.reply == m.reply
    &&& action is Fail <==> m.phase != Phase::Failed && next.phase == Phase::Failed
    &&& at_work(next.phase) ==> at_work(m.phase)
    &&& next.phase == Phase::Finished ==> m.phase == Phase::StoringReply || m.phase
        == Phase::Finished
    &&& next.phase == Phase::StoringReply && m.phase == Phase::StoringReply ==> next == m
    &&& m.phase == Phase::Finished || m.phase == Phase::Failed ==> next == m && action
        == ActionModel::Ignore
}

/// The shape of one step: which phases follow which, and what is asked
/// for on the way. A turn fails only where a message cannot be stored.
pub proof fn law_step_shape(m: TurnModel, e: Event)
    requires
        m.wf(),
    ensures
        follows(m, step_model(m, e).0, step_model(m, e).1),
        step_model(m, e).0.wf(),
        step_model(m, e).0.phase == Phase::Failed && m.phase != Phase::Failed ==> e is StoreFailed
            && (m.phase == Phase::StoringUser || m.phase == Phase::StoringReply),
{
    lemma_step(m, e);
}

/// The turn after the events `events`, taken one after another, and what
/// was asked for at each of them.
pub open spec fn run(m: TurnModel, events: Seq<Event>) -> (TurnModel, Seq<ActionModel>)
    decreases events.len(),
{
    if events.len() == 0 {
        (m, Seq::empty())
    } else {
        let before = run(m, events.drop_last());
        let last = step_model(before.0, events.last());
        (last.0, before.1.push(last.1))
    }
}

/// How often `actions` ask for the user's message to be stored.
pub open spec fn user_stores(actions: Seq<ActionModel>) -> nat
    decreases actions.len(),
{
    if actions.len() == 0 {
        0
    } else if actions.last() is StoreUserMessage {
        user_stores(actions.drop_last()) + 1
    } else {
        user_stores(actions.drop_last())
    }
}

/// How often `actions` ask for a reply to be stored.
pub open spec fn reply_stores(actions: Seq<ActionModel>) -> nat
    decreases actions.len(),
{
    if actions.len() == 0 {
        0
    } else if actions.last() is StoreReply {
        reply_stores(actions.drop_last()) + 1
    } else {
        reply_stores(actions.drop_last())
    }
}

/// What holds of a turn `end` and of all that it has asked for since it
/// was opened.
pub open spec fn settled(end: TurnModel, asked: Seq<ActionModel>) -> bool {
    &&& user_stores(asked) == 0
    &&& reply_stores(asked) <= 1
    &&& at_work(end.phase) ==> reply_stores(asked) == 0
    &&& end.phase == Phase::StoringReply || end.phase == Phase::Finished ==> reply_stores(asked)
        == 1 && asked.contains(ActionModel::StoreReply(end.reply))
    &&& end.phase == Phase::Finished ==> asked.contains(ActionModel::Reply(end.reply))
}

/// One more step keeps a turn settled.
proof fn lemma_settled_step(
    before: TurnModel,
    asked: Seq<ActionModel>,
    next: TurnModel,
    action: ActionModel,
)
    requires
        settled(before, asked),
        follows(before, next, action),
    ensures
        settled(next, asked.push(action)),
{
    let all = asked.push(action);
    let n = asked.len() as int;
    assert(all.drop_last() =~= asked);
    assert(all.last() == action);
    assert(all[n] == action);
    assert forall|a: ActionModel| asked.contains(a) implies all.contains(a) by {
        let i = choose|i: int| 0 <= i < asked.len() && asked[i] == a;
        assert(all[i] == a);
    }
}

/// Each turn stores one message of the user and one reply, whatever comes
/// of its tasks.
///
/// A turn opens by asking for the user's message to be stored. Of what it
/// asks for after that, whatever the events are and however many tasks
/// fail: it never asks for the user's message to be stored again; it asks
/// at most once for a reply to be stored, not at all while it is at work,
/// and exactly once by the time it waits for that or has finished; and
/// the reply that a finished turn has handed out is the one that it had
/// asked to be stored.
pub proof fn law_round_trip(file_id: Seq<char>, message: Seq<char>, events: Seq<Event>)
    ensures
        run(opening(file_id, message), events).0.wf(),
        run(opening(file_id, message), events).1.len() == events.len(),
        settled(run(opening(file_id, message), events).0, run(opening(file_id, message), events).1),
    decreases events.len(),
{
    if events.len() > 0 {
        law_round_trip(file_id, message, events.drop_last());
        let before = run(opening(file_id, message), events.drop_last());
        law_step_shape(before.0, events.last());
        let last = step_model(before.0, events.last());
        lemma_settled_step(before.0, before.1, last.0, last.1);
    }
}

// ---------------------------------------------------------------------
// One frame, and one outcome for each task
// ---------------------------------------------------------------------

/// The tasks of the outcomes, in order.
pub open spec fn outcome_tasks(outcomes: Seq<OutcomeModel>) -> Seq<Task> {
    Seq::new(outcomes.len(), |i: int| outcomes[i].task)
}

/// The tasks among `tasks` that leave an outcome when they are over: all
/// of them, but for the preparing of a frame that went well.
pub open spec fn settled_tasks(tasks: Seq<Task>, frame_ready: bool) -> Seq<Task>
    decreases tasks.len(),
{
    if tasks.len() == 0 {
        Seq::empty()
    } else if tasks.last() == Task::PrepareFrame && frame_ready {
        settled_tasks(tasks.drop_last(), frame_ready)
    } else {
        settled_tasks(tasks.drop_last(), frame_ready).push(tasks.last())
    }
}

/// The frame is prepared at most once among `tasks`.
pub open spec fn one_frame(tasks: Seq<Task>) -> bool {
    forall|i: int, j: int|
        0 <= i < tasks.len() && 0 <= j < tasks.len() && tasks[i] == Task::PrepareFrame && tasks[j]
            == Task::PrepareFrame ==> i == j
}

/// The preparing of the frame is among the first `cursor` of `tasks`.
pub open spec fn frame_before(tasks: Seq<Task>, cursor: int) -> bool {
    exists|k: int| 0 <= k < cursor && k < tasks.len() && tasks[k] == Task::PrepareFrame
}

/// The outcomes of `job` account for its tasks: each task that is over
/// has left one outcome, in the order of the tasks, but for the preparing
/// of a frame that went well; and a frame is only there once it was
/// prepared.
pub open spec fn accounted(job: JobModel) -> bool {
    &&& 0 <= job.cursor <= job.tasks.len()
    &&& one_frame(job.tasks)
    &&& job.frame_ready ==> frame_before(job.tasks, job.cursor)
    &&& outcome_tasks(job.outcomes) == settled_tasks(job.tasks.take(job.cursor), job.frame_ready)
}

/// How often `actions` ask for the frame to be prepared.
pub open spec fn frame_requests(actions: Seq<ActionModel>) -> nat
    decreases actions.len(),
{
    if actions.len() == 0 {
        0
    } else if actions.last() is PrepareFrame {
        frame_requests(actions.drop_last()) + 1
    } else {
        frame_requests(actions.drop_last())
    }
}

/// What holds of a turn `m` and of all that it has asked for since it was
/// opened, as far as the frame and the outcomes go.
pub open spec fn orderly(m: TurnModel, asked: Seq<ActionModel>) -> bool {
    &&& m.wf()
    &&& accounted(m.job)
    &&& frame_requests(asked) <= 1
    &&& frame_requests(asked) == 1 <==> frame_before(m.job.tasks, m.job.cursor) || m.phase
        == Phase::PreparingFrame
    &&& m.phase == Phase::StoringUser ==> m.job.tasks.len() == 0
    &&& m.phase == Phase::StoringReply || m.phase == Phase::Finished ==> m.job.cursor
        == m.job.tasks.len()
}

/// Where the frame is not prepared among `tasks`, it makes no difference
/// to their outcomes whether a frame is there.
proof fn lemma_settled_without_frame(tasks: Seq<Task>)
    requires
        forall|i: int| 0 <= i < tasks.len() ==> tasks[i] != Task::PrepareFrame,
    ensures
        settled_tasks(tasks, true) == tasks,
        settled_tasks(tasks, false) == tasks,
    decreases tasks.len(),
{
    if tasks.len() > 0 {
        lemma_settled_without_frame(tasks.drop_last());
        assert(tasks.drop_last().push(tasks.last()) =~= tasks);
    } else {
        assert(tasks =~= Seq::empty());
    }
}

/// Without a frame, every task leaves an outcome.
proof fn lemma_settled_all(tasks: Seq<Task>)
    ensures
        settled_tasks(tasks, false) == tasks,
    decreases tasks.len(),
{
    if tasks.len() > 0 {
        lemma_settled_all(tasks.drop_last());
        assert(tasks.drop_last().push(tasks.last()) =~= tasks);
    } else {
        assert(tasks =~= Seq::empty());
    }
}

/// The tasks of a plan prepare the frame at most once.
proof fn lemma_tasks_of_plan(plan: Seq<Step>)
    ensures
        one_frame(tasks_of(plan)),
        tasks_of(plan).len() <= 7,
{
}

/// An outcome for the current task keeps a job accounted, where that task
/// is not the preparing of a frame that is there.
proof fn lemma_accounted_recorded(job: JobModel, finding: Finding)
    requires
        accounted(job),
        job.cursor < job.tasks.len(),
        !(job.tasks[job.cursor] == Task::PrepareFrame && job.frame_ready),
    ensures
        accounted(recorded(job, finding)),
        frame_before(recorded(job, finding).tasks, recorded(job, finding).cursor) <==> frame_before(
            job.tasks,
            job.cursor,
        ) || job.tasks[job.cursor] == Task::PrepareFrame,
{
    let next = recorded(job, finding);
    assert(job.tasks.take(job.cursor + 1).drop_last() =~= job.tasks.take(job.cursor));
    assert(job.tasks.take(job.cursor + 1).last() == job.tasks[job.cursor]);
    assert(outcome_tasks(next.outcomes) =~= outcome_tasks(job.outcomes).push(
        job.tasks[job.cursor],
    ));
    if frame_before(job.tasks, job.cursor) {
        let k = choose|k: int|
            0 <= k < job.cursor && k < job.tasks.len() && job.tasks[k] == Task::PrepareFrame;
        assert(0 <= k < next.cursor && next.tasks[k] == Task::PrepareFrame);
    }
    if job.tasks[job.cursor] == Task::PrepareFrame {
        assert(0 <= job.cursor < next.cursor && next.tasks[job.cursor] == Task::PrepareFrame);
    }
}

/// A frame that is there after it was prepared keeps a job accounted.
proof fn lemma_accounted_frame_ready(job: JobModel)
    requires
        accounted(job),
        job.cursor < job.tasks.len(),
        job.tasks[job.cursor] == Task::PrepareFrame,
    ensures
        !job.frame_ready,
        accounted(JobModel { cursor: job.cursor + 1, frame_ready: true, ..job }),
        frame_before(job.tasks, job.cursor + 1),
{
    if job.frame_ready {
        let k = choose|k: int|
            0 <= k < job.cursor && k < job.tasks.len() && job.tasks[k] == Task::PrepareFrame;
        assert(k == job.cursor);
    }
    let head = job.tasks.take(job.cursor);
    assert forall|i: int| 0 <= i < head.len() implies head[i] != Task::PrepareFrame by {
        if head[i] == Task::PrepareFrame {
            assert(job.tasks[i] == Task::PrepareFrame);
            assert(i == job.cursor);
        }
    }
    lemma_settled_without_frame(head);
    assert(job.tasks.take(job.cursor + 1).drop_last() =~= head);
    assert(job.tasks.take(job.cursor + 1).last() == Task::PrepareFrame);
    assert(0 <= job.cursor < job.cursor + 1 && job.tasks[job.cursor] == Task::PrepareFrame);
}

/// Taking up the next task keeps a job accounted. The frame is asked for
/// exactly where the turn then waits for it, and no task that was passed
/// over on the way was the preparing of the frame.
proof fn lemma_dispatch_accounted(job: JobModel)
    requires
        accounted(job),
    ensures
        ({
            let (turn, action) = dispatch(job);
            &&& accounted(turn.job)
            &&& action is PrepareFrame <==> turn.phase == Phase::PreparingFrame
            &&& frame_before(turn.job.tasks, turn.job.cursor) <==> frame_before(
                job.tasks,
                job.cursor,
            )
        }),
    decreases job.tasks.len() - job.cursor,
{
    lemma_dispatch(job);
    if job.cursor < job.tasks.len() {
        let task = job.tasks[job.cursor];
        if task != Task::Transcribe && task != Task::PrepareFrame && needs_frame(task)
            && !job.frame_ready {
            let next = recorded(job, Finding::Failure("Vision unavailable"@));
            lemma_accounted_recorded(job, Finding::Failure("Vision unavailable"@));
            lemma_dispatch_accounted(next);
        }
    }
}

/// A step that ends the current task with an outcome keeps a turn
/// orderly.
proof fn lemma_orderly_recorded(m: TurnModel, asked: Seq<ActionModel>, finding: Finding)
    requires
        orderly(m, asked),
        m.phase == Phase::LoadingMedia || m.phase == Phase::PreparingFrame || m.phase
            == Phase::Calling,
    ensures
        orderly(
            dispatch(recorded(m.job, finding)).0,
            asked.push(dispatch(recorded(m.job, finding)).1),
        ),
{
    let job = m.job;
    if m.phase == Phase::PreparingFrame {
        lemma_accounted_frame_ready(job);
    }
    lemma_accounted_recorded(job, finding);
    let next = recorded(job, finding);
    lemma_dispatch(next);
    lemma_dispatch_accounted(next);
    let (turn, action) = dispatch(next);
    let all = asked.push(action);
    assert(all.drop_last() =~= asked);
    if action is PrepareFrame {
        assert(turn.job.tasks[turn.job.cursor] == Task::PrepareFrame);
        if frame_before(job.tasks, job.cursor) {
            let k = choose|k: int|
                0 <= k < job.cursor && k < job.tasks.len() && job.tasks[k] == Task::PrepareFrame;
            assert(k == turn.job.cursor);
        }
        if job.tasks[job.cursor] == Task::PrepareFrame {
            assert(job.cursor == turn.job.cursor);
        }
    }
}

/// The step at which the frame is there keeps a turn orderly.
proof fn lemma_orderly_frame_ready(m: TurnModel, asked: Seq<ActionModel>)
    requires
        orderly(m, asked),
        m.phase == Phase::PreparingFrame,
    ensures
        orderly(
            dispatch(JobModel { cursor: m.job.cursor + 1, frame_ready: true, ..m.job }).0,
            asked.push(
                dispatch(JobModel { cursor: m.job.cursor + 1, frame_ready: true, ..m.job }).1,
            ),
        ),
{
    let job = m.job;
    lemma_accounted_frame_ready(job);
    let next = JobModel { cursor: job.cursor + 1, frame_ready: true, ..job };
    lemma_dispatch(next);
    lemma_dispatch_accounted(next);
    let (turn, action) = dispatch(next);
    let all = asked.push(action);
    assert(all.drop_last() =~= asked);
    if action is PrepareFrame {
        assert(turn.job.tasks[turn.job.cursor] == Task::PrepareFrame);
        assert(job.cursor == turn.job.cursor);
    }
}

/// The step at which the message is scored keeps a turn orderly.
proof fn lemma_orderly_classified(m: TurnModel, asked: Seq<ActionModel>)
    requires
        orderly(m, asked),
        m.phase == Phase::StoringUser,
    ensures
        orderly(classified(m.job).0, asked.push(classified(m.job).1)),
{
    let job = m.job;
    let (turn, action) = classified(job);
    let all = asked.push(action);
    assert(all.drop_last() =~= asked);
    assert(!frame_before(job.tasks, job.cursor));
    match verdict(IntentScore::scored(lowercase(resolved(job.message)))) {
        Verdict::Clarify(question) => {},
        Verdict::Proceed(plan) => {
            let next = JobModel { tasks: tasks_of(plan), cursor: 0, ..job };
            lemma_tasks_of_plan(plan);
            assert(next.tasks.take(0) =~= Seq::<Task>::empty());
            assert(job.tasks.take(job.cursor) =~= Seq::<Task>::empty());
            assert(!frame_before(next.tasks, 0));
            lemma_dispatch(next);
            lemma_dispatch_accounted(next);
        },
    }
}

/// One step keeps a turn orderly.
proof fn lemma_orderly_step(m: TurnModel, asked: Seq<ActionModel>, e: Event)
    requires
        orderly(m, asked),
    ensures
        orderly(step_model(m, e).0, asked.push(step_model(m, e).1)),
{
    let (next, action) = step_model(m, e);
    let all = asked.push(action);
    assert(all.drop_last() =~= asked);
    match finding_of(m, e) {
        Some(finding) => {
            lemma_orderly_recorded(m, asked, finding);
        },
        None => {
            match (m.phase, e) {
                (Phase::StoringUser, Event::Stored) => {
                    lemma_orderly_classified(m, asked);
                },
                (Phase::PreparingFrame, Event::FrameReady) => {
                    lemma_orderly_frame_ready(m, asked);
                },
                _ => {},
            }
        },
    }
}

/// In every turn the frame is prepared at most once, however many tasks
/// look at it, and each task that is over has left exactly one outcome,
/// in the order of the tasks; only the preparing of a frame that went
/// well leaves none. When the reply is written, every task is over.
pub proof fn law_one_frame_one_outcome_each(
    file_id: Seq<char>,
    message: Seq<char>,
    events: Seq<Event>,
)
    ensures
        ({
            let (end, asked) = run(opening(file_id, message), events);
            &&& frame_requests(asked) <= 1
            &&& outcome_tasks(end.job.outcomes) == settled_tasks(
                end.job.tasks.take(end.job.cursor),
                end.job.frame_ready,
            )
            &&& end.phase == Phase::StoringReply || end.phase == Phase::Finished
                ==> outcome_tasks(end.job.outcomes) == settled_tasks(
                end.job.tasks,
                end.job.frame_ready,
            )
            &&& !end.job.frame_ready ==> outcome_tasks(end.job.outcomes) == end.job.tasks.take(
                end.job.cursor,
            )
            &&& orderly(end, asked)
        }),
    decreases events.len(),
{
    let start = opening(file_id, message);
    if events.len() == 0 {
        assert(start.job.tasks.take(0) =~= Seq::<Task>::empty());
        assert(outcome_tasks(start.job.outcomes) =~= Seq::<Task>::empty());
        assert(!frame_before(start.job.tasks, 0));
    } else {
        law_one_frame_one_outcome_each(file_id, message, events.drop_last());
        let before = run(start, events.drop_last());
        lemma_orderly_step(before.0, before.1, events.last());
    }
    let (end, asked) = run(start, events);
    lemma_settled_all(end.job.tasks.take(end.job.cursor));
    assert(end.job.tasks.take(end.job.tasks.len() as int) =~= end.job.tasks);
}

} // verus!
