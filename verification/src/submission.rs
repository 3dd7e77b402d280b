//! One submission of a batch, as a state machine: it asks for an action, is
//! told what came of it, and asks for the next, until it asks to finish.
//! Every failure ends it at once; nothing is tried twice.

use crate::action::{action_views, Action, ActionView};
use crate::endpoint::{text_view, EndpointView, PostEndpoint};
use crate::error::{outcome_view, PostError, PostErrorView, GARBLED_BODY};
use crate::json::{decode, decoded, EvaluationView};
use crate::request::{json_array, json_array_of};
use crate::script::{is_effect, lemma_script_holds_effects, script_of, Script};
use vstd::prelude::*;
use vstd::string::*;

verus! {

/// What came of the action that a submission asked for last.
#[derive(Debug)]
pub enum Event {
    /// The request could not be sent, or no response came.
    TransportFailed { cause: String },
    /// A response came, with this HTTP status code.
    Responded { status: u16 },
    /// The text of the refusing response; `None` where it could not be read.
    FailureText { text: Option<String> },
    /// The whole response body.
    Body { bytes: Vec<u8> },
    /// The response body could not be read to its end.
    BodyUnreadable { cause: String },
    /// A report, a directory or a file was done.
    Completed,
    /// The directory, or the file to write, could not be created.
    CreateFailed { cause: String },
    /// The file was created, but its bytes could not be written.
    WriteFailed { cause: String },
}

/// Mathematical value of an [`Event`].
pub enum EventView {
    TransportFailed { cause: Seq<char> },
    Responded { status: u16 },
    FailureText { text: Option<Seq<char>> },
    Body { bytes: Seq<u8> },
    BodyUnreadable { cause: Seq<char> },
    Completed,
    CreateFailed { cause: Seq<char> },
    WriteFailed { cause: Seq<char> },
}

impl View for Event {
    type V = EventView;

    open spec fn view(&self) -> EventView {
        match self {
            Event::TransportFailed { cause } => EventView::TransportFailed { cause: cause@ },
            Event::Responded { status } => EventView::Responded { status: *status },
            Event::FailureText { text } => EventView::FailureText { text: text_view(*text) },
            Event::Body { bytes } => EventView::Body { bytes: bytes@ },
            Event::BodyUnreadable { cause } => EventView::BodyUnreadable { cause: cause@ },
            Event::Completed => EventView::Completed,
            Event::CreateFailed { cause } => EventView::CreateFailed { cause: cause@ },
            Event::WriteFailed { cause } => EventView::WriteFailed { cause: cause@ },
        }
    }
}

/// Where a submission stands: what it waits for.
#[derive(Debug)]
pub enum Phase {
    /// The batch was handed over to be sent.
    Sending,
    /// The endpoint refused the batch; the text of its response is awaited.
    ReadingFailure,
    /// The endpoint accepted the batch; the body of its response is awaited.
    ReadingBody,
    /// A report is being made.
    Reporting,
    /// The directory at `path` is being ensured.
    EnsuringDir { path: String },
    /// The file at `path` is being written.
    WritingFile { path: String },
    /// The submission has asked to finish.
    Done,
}

/// Mathematical value of a [`Phase`].
pub enum PhaseView {
    Sending,
    ReadingFailure,
    ReadingBody,
    Reporting,
    EnsuringDir { path: Seq<char> },
    WritingFile { path: Seq<char> },
    Done,
}

impl View for Phase {
    type V = PhaseView;

    open spec fn view(&self) -> PhaseView {
        match self {
            Phase::Sending => PhaseView::Sending,
            Phase::ReadingFailure => PhaseView::ReadingFailure,
            Phase::ReadingBody => PhaseView::ReadingBody,
            Phase::Reporting => PhaseView::Reporting,
            Phase::EnsuringDir { path } => PhaseView::EnsuringDir { path: path@ },
            Phase::WritingFile { path } => PhaseView::WritingFile { path: path@ },
            Phase::Done => PhaseView::Done,
        }
    }
}

/// One submission of one batch to one endpoint.
pub struct Submission {
    endpoint: PostEndpoint,
    names_and_labels: Vec<(String, String)>,
    slot: u64,
    phase: Phase,
    // The actions still to ask for, the next one last.
    stack: Vec<Action>,
    outcome: Result<(), PostError>,
}

/// Mathematical value of a [`Submission`].
#[verifier::ext_equal]
pub struct SubmissionView {
    /// The endpoint that the batch goes to.
    pub endpoint: EndpointView,
    /// The nodes of the batch, each with its client label.
    pub nodes: Seq<(Seq<char>, Seq<char>)>,
    /// The slot that the batch is for.
    pub slot: u64,
    /// What the submission waits for.
    pub phase: PhaseView,
    /// The actions still to ask for once the awaited one is done, in order.
    pub remaining: Seq<ActionView>,
    /// The outcome to finish with once nothing remains.
    pub outcome: Result<(), PostErrorView>,
}

impl View for Submission {
    type V = SubmissionView;

    closed spec fn view(&self) -> SubmissionView {
        SubmissionView {
            endpoint: self.endpoint@,
            nodes: self.names_and_labels.deep_view(),
            slot: self.slot,
            phase: self.phase@,
            remaining: action_views(self.stack@.reverse()),
            outcome: outcome_view(self.outcome),
        }
    }
}

/// Whether a status code is in the success range, 200 to 299.
pub open spec fn is_success(status: u16) -> bool {
    200 <= status < 300
}

/// The phase in which a submission waits for an action to be done.
pub open spec fn awaited(action: ActionView) -> PhaseView {
    match action {
        ActionView::Send { .. } => PhaseView::Sending,
        ActionView::ReadFailureText => PhaseView::ReadingFailure,
        ActionView::ReadBody => PhaseView::ReadingBody,
        ActionView::ReportReward { .. } => PhaseView::Reporting,
        ActionView::EnsureDir { path } => PhaseView::EnsuringDir { path },
        ActionView::WriteFile { path, .. } => PhaseView::WritingFile { path },
        ActionView::ReportWinners { .. } => PhaseView::Reporting,
        ActionView::Finish { .. } => PhaseView::Done,
    }
}

/// A submission that has just been started and waits for its batch to be
/// sent.
pub open spec fn started(
    endpoint: EndpointView,
    nodes: Seq<(Seq<char>, Seq<char>)>,
    slot: u64,
) -> SubmissionView {
    SubmissionView {
        endpoint,
        nodes,
        slot,
        phase: PhaseView::Sending,
        remaining: Seq::empty(),
        outcome: Ok(()),
    }
}

/// The submission asks to finish with `outcome`, and is done.
pub open spec fn finish(s: SubmissionView, outcome: Result<(), PostErrorView>) -> (
    SubmissionView,
    ActionView,
) {
    (
        SubmissionView { phase: PhaseView::Done, remaining: Seq::empty(), outcome: Ok(()), ..s },
        ActionView::Finish { outcome },
    )
}

/// The submission asks for `action` and waits for it.
pub open spec fn ask(s: SubmissionView, action: ActionView) -> (SubmissionView, ActionView) {
    (SubmissionView { phase: awaited(action), ..s }, action)
}

/// The submission asks for the first of the remaining actions, or, where
/// none remains, to finish with the outcome it holds.
pub open spec fn advance(s: SubmissionView) -> (SubmissionView, ActionView) {
    if s.remaining.len() > 0 {
        ask(SubmissionView { remaining: s.remaining.drop_first(), ..s }, s.remaining[0])
    } else {
        finish(s, s.outcome)
    }
}

/// The text that a refusal is reported with.
pub open spec fn failure_text(text: Option<Seq<char>>) -> Seq<char> {
    match text {
        Some(t) => t,
        None => GARBLED_BODY@,
    }
}

/// What a submission does on an event: the state it moves to and the action
/// it asks for next; `None` where the event does not answer what the
/// submission waits for.
///
/// - While the batch is being sent: a transport failure finishes the
///   submission with `Transport`; a response with a success status has the
///   body read, any other status has the refusal's text read.
/// - The refusal's text finishes with `HttpStatus`.
/// - A body that cannot be read, or that is no JSON array, finishes with
///   `Decode`. Otherwise the script for its results is taken up.
/// - A completed action is followed by the next of the script, and the last
///   one by the script's outcome.
/// - A failure to create finishes with `FsCreate`, a failure to write with
///   `FsWrite`, each with the path in question.
pub open spec fn step_of(s: SubmissionView, e: EventView) -> Option<(SubmissionView, ActionView)> {
    match (s.phase, e) {
        (PhaseView::Sending, EventView::TransportFailed { cause }) => Some(
            finish(s, Err(PostErrorView::Transport { cause })),
        ),
        (PhaseView::Sending, EventView::Responded { status }) => Some(
            if is_success(status) {
                ask(s, ActionView::ReadBody)
            } else {
                ask(s, ActionView::ReadFailureText)
            },
        ),
        (PhaseView::ReadingFailure, EventView::FailureText { text }) => Some(
            finish(s, Err(PostErrorView::HttpStatus { body: failure_text(text) })),
        ),
        (PhaseView::ReadingBody, EventView::BodyUnreadable { cause }) => Some(
            finish(s, Err(PostErrorView::Decode { cause })),
        ),
        (PhaseView::ReadingBody, EventView::Body { bytes }) => Some(
            match decoded(bytes) {
                Err(cause) => finish(s, Err(PostErrorView::Decode { cause })),
                Ok(results) => {
                    let script = script_of(s.endpoint, s.nodes, results, s.slot);
                    advance(
                        SubmissionView { remaining: script.actions, outcome: script.outcome, ..s },
                    )
                },
            },
        ),
        (PhaseView::Reporting, EventView::Completed) => Some(advance(s)),
        (PhaseView::EnsuringDir { .. }, EventView::Completed) => Some(advance(s)),
        (PhaseView::WritingFile { .. }, EventView::Completed) => Some(advance(s)),
        (PhaseView::EnsuringDir { path }, EventView::CreateFailed { cause }) => Some(
            finish(s, Err(PostErrorView::FsCreate { path, cause })),
        ),
        (PhaseView::WritingFile { path }, EventView::CreateFailed { cause }) => Some(
            finish(s, Err(PostErrorView::FsCreate { path, cause })),
        ),
        (PhaseView::WritingFile { path }, EventView::WriteFailed { cause }) => Some(
            finish(s, Err(PostErrorView::FsWrite { path, cause })),
        ),
        _ => None,
    }
}

/// The submission after it was told the events one after another, and the
/// actions that it asked for on the way. An event that does not answer is
/// passed over.
pub open spec fn run(s: SubmissionView, events: Seq<EventView>) -> (SubmissionView, Seq<ActionView>)
    decreases events.len(),
{
    if events.len() == 0 {
        (s, Seq::empty())
    } else {
        let (mid, asked) = run(s, events.drop_last());
        match step_of(mid, events.last()) {
            Some((next, action)) => (next, asked.push(action)),
            None => (mid, asked),
        }
    }
}

/// `n` times the event that an action was done.
pub open spec fn completions(n: nat) -> Seq<EventView> {
    Seq::new(n, |i: int| EventView::Completed)
}

/// A submission that has asked to finish answers no event: nothing is done
/// after a failure, and nothing is tried again.
pub proof fn lemma_finished_is_final(s: SubmissionView, events: Seq<EventView>)
    requires
        s.phase is Done,
    ensures
        forall|e: EventView| step_of(s, e) is None,
        run(s, events) == (s, Seq::<ActionView>::empty()),
    decreases events.len(),
{
    if events.len() > 0 {
        lemma_finished_is_final(s, events.drop_last());
    }
}

/// Telling events in two parts is telling them in one.
pub proof fn lemma_run_in_parts(s: SubmissionView, first: Seq<EventView>, then: Seq<EventView>)
    ensures
        run(s, first + then) == (
            run(run(s, first).0, then).0,
            run(s, first).1 + run(run(s, first).0, then).1,
        ),
    decreases then.len(),
{
    if then.len() == 0 {
        assert(first + then =~= first);
        assert(run(s, first).1 + Seq::<ActionView>::empty() =~= run(s, first).1);
    } else {
        lemma_run_in_parts(s, first, then.drop_last());
        assert((first + then).drop_last() =~= first + then.drop_last());
        assert((first + then).last() == then.last());
        let mid = run(run(s, first).0, then.drop_last());
        match step_of(mid.0, then.last()) {
            Some((next, action)) => {
                assert(run(s, first + then).1 =~= run(s, first).1 + mid.1.push(action));
            },
            None => {},
        }
    }
}

/// While every action is done, the submission asks for the remaining
/// actions in their order, one per completion, and after the last of them
/// asks to finish with the outcome it holds.
pub proof fn lemma_remaining_in_order(s: SubmissionView, k: nat)
    requires
        forall|i: int| 0 <= i < s.remaining.len() ==> is_effect(
            #[trigger] s.remaining[i],
        ),
        k <= s.remaining.len(),
    ensures
        seq![advance(s).1] + run(advance(s).0, completions(k)).1 == (s.remaining.push(
            ActionView::Finish { outcome: s.outcome },
        )).take(k + 1 as int),
        k < s.remaining.len() ==> run(advance(s).0, completions(k)).0 == (SubmissionView {
            phase: awaited(s.remaining[k as int]),
            remaining: s.remaining.skip(k + 1 as int),
            ..s
        }),
        k == s.remaining.len() ==> run(advance(s).0, completions(k)).0 == finish(s, s.outcome).0,
    decreases k,
{
    let all = s.remaining.push(ActionView::Finish { outcome: s.outcome });
    let first = advance(s);
    if k == 0 {
        assert(seq![first.1] + Seq::<ActionView>::empty() =~= all.take(1));
        if s.remaining.len() > 0 {
            assert(s.remaining.drop_first() =~= s.remaining.skip(1));
        }
    } else {
        let j = (k - 1) as nat;
        lemma_remaining_in_order(s, j);
        assert(completions(k).drop_last() =~= completions(j));
        assert(completions(k).last() == EventView::Completed);
        let (mid, asked) = run(first.0, completions(j));
        assert(is_effect_phase(mid.phase)) by {
            assert(is_effect(s.remaining[j as int]));
        }
        assert(step_of(mid, EventView::Completed) == Some(advance(mid)));
        assert(mid.remaining == s.remaining.skip(k as int));
        if k < s.remaining.len() {
            assert(mid.remaining[0] == s.remaining[k as int]);
            assert(mid.remaining.drop_first() =~= s.remaining.skip(k + 1 as int));
        }
        assert(advance(mid).1 == all[k as int]);
        assert(seq![first.1] + asked == all.take(k as int));
        assert(all.take(k + 1 as int) =~= all.take(k as int).push(all[k as int]));
        assert(seq![first.1] + asked.push(advance(mid).1) =~= (seq![first.1] + asked).push(
            advance(mid).1,
        ));
    }
}

/// Whether a phase waits for a report, a directory or a file.
pub open spec fn is_effect_phase(phase: PhaseView) -> bool {
    phase is Reporting || phase is EnsuringDir || phase is WritingFile
}

/// A submission in which nothing fails, from its start to its end: once the
/// endpoint has answered with a success status and a body that decodes to
/// `results`, and every action of the script is done, the submission has
/// asked to read the body, then for each action of the script for these
/// results in its order, then to finish with the script's outcome, and is
/// done.
pub proof fn lemma_unhindered_submission(
    endpoint: EndpointView,
    nodes: Seq<(Seq<char>, Seq<char>)>,
    slot: u64,
    status: u16,
    body: Seq<u8>,
    results: Seq<EvaluationView>,
)
    requires
        is_success(status),
        decoded(body) == Ok::<Seq<EvaluationView>, Seq<char>>(results),
    ensures
        ({
            let script = script_of(endpoint, nodes, results, slot);
            let events = seq![EventView::Responded { status }, EventView::Body { bytes: body }]
                + completions(script.actions.len());
            let end = run(started(endpoint, nodes, slot), events);
            &&& end.0.phase is Done
            &&& end.1 == seq![ActionView::ReadBody] + script.actions + seq![
                ActionView::Finish { outcome: script.outcome },
            ]
        }),
{
    let s0 = started(endpoint, nodes, slot);
    let script = script_of(endpoint, nodes, results, slot);
    let head = seq![EventView::Responded { status }, EventView::Body { bytes: body }];
    let tail = completions(script.actions.len());
    let s1 = ask(s0, ActionView::ReadBody).0;
    let loaded = SubmissionView { remaining: script.actions, outcome: script.outcome, ..s1 };
    assert(head.drop_last() =~= seq![EventView::Responded { status }]);
    assert(head.drop_last().drop_last() =~= Seq::<EventView>::empty());
    assert(run(s0, head.drop_last()) == (s1, seq![ActionView::ReadBody])) by {
        assert(run(s0, head.drop_last().drop_last()) == (s0, Seq::<ActionView>::empty()));
        assert(step_of(s0, EventView::Responded { status }) == Some(ask(s0, ActionView::ReadBody)));
        assert(Seq::<ActionView>::empty().push(ActionView::ReadBody) =~= seq![
            ActionView::ReadBody,
        ]);
    }
    assert(step_of(s1, EventView::Body { bytes: body }) == Some(advance(loaded)));
    assert(run(s0, head) == (
        advance(loaded).0,
        seq![ActionView::ReadBody].push(advance(loaded).1),
    ));
    lemma_script_holds_effects(endpoint, nodes, results, slot);
    lemma_remaining_in_order(loaded, script.actions.len());
    lemma_run_in_parts(s0, head, tail);
    let all = script.actions.push(ActionView::Finish { outcome: script.outcome });
    assert(all.take(script.actions.len() + 1 as int) =~= all);
    let rest = run(advance(loaded).0, tail).1;
    assert(seq![ActionView::ReadBody].push(advance(loaded).1) + rest =~= seq![
        ActionView::ReadBody,
    ] + (seq![advance(loaded).1] + rest));
    assert(seq![ActionView::ReadBody] + all =~= seq![ActionView::ReadBody] + script.actions
        + seq![ActionView::Finish { outcome: script.outcome }]);
}

fn phase_after(action: &Action) -> (phase: Phase)
    ensures
        phase@ == awaited(action@),
{
    match action {
        Action::Send { .. } => Phase::Sending,
        Action::ReadFailureText => Phase::ReadingFailure,
        Action::ReadBody => Phase::ReadingBody,
        Action::ReportReward { .. } => Phase::Reporting,
        Action::EnsureDir { path } => Phase::EnsuringDir { path: path.clone() },
        Action::WriteFile { path, .. } => Phase::WritingFile { path: path.clone() },
        Action::ReportWinners { .. } => Phase::Reporting,
        Action::Finish { .. } => Phase::Done,
    }
}

fn reversed(actions: Vec<Action>) -> (stack: Vec<Action>)
    ensures
        stack@ == actions@.reverse(),
{
    let ghost all = actions@;
    let mut actions = actions;
    let mut stack: Vec<Action> = Vec::new();
    while actions.len() > 0
        invariant
            actions.len() <= all.len(),
            actions@ == all.take(actions.len() as int),
            stack.len() == all.len() - actions.len(),
            forall|i: int| 0 <= i < stack.len() ==> stack[i] == all[all.len() - 1 - i],
        decreases actions.len(),
    {
        let action = actions.pop().unwrap();
        stack.push(action);
    }
    assert(stack@ =~= all.reverse());
    stack
}

impl Submission {
    /// What the submission waits for.
    pub fn phase(&self) -> (phase: &Phase)
        ensures
            phase@ == self@.phase,
    {
        &self.phase
    }

    /// Whether the submission has asked to finish.
    pub fn is_done(&self) -> (done: bool)
        ensures
            done <==> self@.phase is Done,
    {
        match self.phase {
            Phase::Done => true,
            _ => false,
        }
    }

    fn finish(&mut self, outcome: Result<(), PostError>) -> (action: Action)
        ensures
            (final(self)@, action@) == finish(old(self)@, outcome_view(outcome)),
    {
        self.phase = Phase::Done;
        self.stack = Vec::new();
        self.outcome = Ok(());
        assert(action_views(self.stack@.reverse()) =~= Seq::<ActionView>::empty());
        Action::Finish { outcome }
    }

    fn ask(&mut self, action: Action) -> (asked: Action)
        ensures
            (final(self)@, asked@) == ask(old(self)@, action@),
    {
        self.phase = phase_after(&action);
        action
    }

    fn advance(&mut self) -> (action: Action)
        ensures
            (final(self)@, action@) == advance(old(self)@),
    {
        let ghost before = self.stack@;
        match self.stack.pop() {
            Some(next) => {
                proof {
                    assert(before.reverse()[0] == next);
                    assert(action_views(self.stack@.reverse()) =~= action_views(
                        before.reverse(),
                    ).drop_first());
                }
                self.ask(next)
            },
            None => {
                let mut outcome: Result<(), PostError> = Ok(());
                core::mem::swap(&mut self.outcome, &mut outcome);
                self.finish(outcome)
            },
        }
    }

    fn take_up(&mut self, script: Script) -> (action: Action)
        ensures
            (final(self)@, action@) == advance(
                SubmissionView {
                    remaining: script@.actions,
                    outcome: script@.outcome,
                    ..old(self)@
                },
            ),
    {
        let Script { actions, outcome } = script;
        self.stack = reversed(actions);
        self.outcome = outcome;
        assert(action_views(self.stack@.reverse()) =~= action_views(actions@));
        self.advance()
    }

    /// Tells the submission what came of the action it asked for last, and
    /// gets the next action. Returns `None`, and leaves the submission as it
    /// is, where the event does not answer what the submission waits for;
    /// after `Finish` that holds of every event.
    pub fn step(&mut self, event: Event) -> (action: Option<Action>)
        ensures
            match step_of(old(self)@, event@) {
                Some((next, asked)) => action is Some && action->0@ == asked && final(self)@
                    == next,
                None => action is None && final(self)@ == old(self)@,
            },
    {
        let mut phase = Phase::Done;
        core::mem::swap(&mut self.phase, &mut phase);
        match (phase, event) {
            (Phase::Sending, Event::TransportFailed { cause }) => {
                Some(self.finish(Err(PostError::Transport { cause })))
            },
            (Phase::Sending, Event::Responded { status }) => {
                if 200 <= status && status < 300 {
                    Some(self.ask(Action::ReadBody))
                } else {
                    Some(self.ask(Action::ReadFailureText))
                }
            },
            (Phase::ReadingFailure, Event::FailureText { text }) => {
                let body = match text {
                    Some(t) => t,
                    None => String::from_str(GARBLED_BODY),
                };
                Some(self.finish(Err(PostError::HttpStatus { body })))
            },
            (Phase::ReadingBody, Event::BodyUnreadable { cause }) => {
                Some(self.finish(Err(PostError::Decode { cause })))
            },
            (Phase::ReadingBody, Event::Body { bytes }) => {
                match decode(bytes.as_slice()) {
                    Err(cause) => Some(self.finish(Err(PostError::Decode { cause }))),
                    Ok(results) => {
                        let script = self.endpoint.plan(&self.names_and_labels, &results, self.slot);
                        Some(self.take_up(script))
                    },
                }
            },
            (Phase::Reporting, Event::Completed) => Some(self.advance()),
            (Phase::EnsuringDir { .. }, Event::Completed) => Some(self.advance()),
            (Phase::WritingFile { .. }, Event::Completed) => Some(self.advance()),
            (Phase::EnsuringDir { path }, Event::CreateFailed { cause }) => {
                Some(self.finish(Err(PostError::FsCreate { path, cause })))
            },
            (Phase::WritingFile { path }, Event::CreateFailed { cause }) => {
                Some(self.finish(Err(PostError::FsCreate { path, cause })))
            },
            (Phase::WritingFile { path }, Event::WriteFailed { cause }) => {
                Some(self.finish(Err(PostError::FsWrite { path, cause })))
            },
            (phase, _) => {
                self.phase = phase;
                None
            },
        }
    }
}

impl PostEndpoint {
    /// Starts the submission of a batch. `blocks` holds the blocks in
    /// submission order, each as its JSON text; `names_and_labels` names, at
    /// the same position, the node that built the block and the label of its
    /// client; `slot` is the slot that the blocks are for.
    ///
    /// Returns the submission and its first action: to post the blocks, as
    /// one JSON array, to the endpoint's URL.
    pub fn post_blocks(
        &self,
        names_and_labels: Vec<(String, String)>,
        blocks: Vec<Vec<u8>>,
        slot: u64,
    ) -> (start: (Submission, Action))
        ensures
            start.0@ == started(self@, names_and_labels.deep_view(), slot),
            start.1@ == (ActionView::Send {
                url: self@.url,
                body: json_array_of(blocks.deep_view()),
            }),
    {
        let submission = Submission {
            endpoint: self.clone(),
            names_and_labels,
            slot,
            phase: Phase::Sending,
            stack: Vec::new(),
            outcome: Ok(()),
        };
        assert(action_views(submission.stack@.reverse()) =~= Seq::<ActionView>::empty());
        (submission, Action::Send { url: self.url().clone(), body: json_array(&blocks) })
    }
}

} // verus!
