//! The checking worker as a state machine: it waits for the text to change, lets the text
//! settle for a moment, asks for a check of the settled text unless it is blank or was just
//! checked, and passes the recommendations on.
//!
//! The driver performs each action and answers with the event that it led to: after
//! `AwaitChange` the next change, after `StartTimer` either a change (which restarts the
//! timer) or the end of the timer with the current text, after `Check` the recommendations,
//! after `Send` it awaits the next change.
use crate::interop::bridge::{Recommendation, RecommendationView, recommendation_views};
use crate::languatool::service::Suggestion;
use crate::text::{is_blank, is_blank_text, is_white_space};
use vstd::prelude::*;

verus! {

/// How long the text must stay unchanged before it is checked, in milliseconds.
pub const DEBOUNCE_MILLIS: u64 = 300;

/// What the worker is waiting for.
#[derive(Debug, Clone, Copy, PartialEq, Eq, Structural)]
pub enum WorkerPhase {
    /// For the text to change.
    Waiting,
    /// For the text to stay unchanged until the timer ends.
    Debouncing,
    /// For the recommendations of the check it asked for.
    Checking,
}

/// The checking worker: what it waits for and the last text it asked to check.
pub struct DebounceWorker {
    pub phase: WorkerPhase,
    pub last_text: String,
}

/// What happened while the driver performed the last action.
pub enum WorkerEvent {
    /// The text changed.
    Changed,
    /// The timer ended; this is the text at that moment.
    TimerElapsed(String),
    /// The check finished with these recommendations.
    Checked(Vec<Recommendation>),
}

/// What the driver does next.
pub enum WorkerAction {
    /// Wait for the text to change.
    AwaitChange,
    /// Start (or start again) the settling timer.
    StartTimer,
    /// Ask for the recommendations of this text.
    Check(String),
    /// Hand these recommendations to the editor, then wait for a change.
    Send(Suggestion),
    /// Go on with what was being done: the event was not one that was waited for.
    Ignore,
}

/// The worker as plain values.
pub struct WorkerView {
    pub phase: WorkerPhase,
    pub last_text: Seq<char>,
}

/// An event as plain values.
pub enum EventView {
    Changed,
    TimerElapsed(Seq<char>),
    Checked(Seq<RecommendationView>),
}

/// An action as plain values.
pub enum ActionView {
    AwaitChange,
    StartTimer,
    Check(Seq<char>),
    Send(Seq<RecommendationView>),
    Ignore,
}

impl View for DebounceWorker {
    type V = WorkerView;

    open spec fn view(&self) -> WorkerView {
        WorkerView { phase: self.phase, last_text: self.last_text@ }
    }
}

impl View for WorkerEvent {
    type V = EventView;

    open spec fn view(&self) -> EventView {
        match self {
            WorkerEvent::Changed => EventView::Changed,
            WorkerEvent::TimerElapsed(t) => EventView::TimerElapsed(t@),
            WorkerEvent::Checked(r) => EventView::Checked(recommendation_views(r@)),
        }
    }
}

impl View for WorkerAction {
    type V = ActionView;

    open spec fn view(&self) -> ActionView {
        match self {
            WorkerAction::AwaitChange => ActionView::AwaitChange,
            WorkerAction::StartTimer => ActionView::StartTimer,
            WorkerAction::Check(t) => ActionView::Check(t@),
            WorkerAction::Send(s) => ActionView::Send(recommendation_views(s.0@)),
            WorkerAction::Ignore => ActionView::Ignore,
        }
    }
}

/// One step of the worker: its next state and the action for the driver.
pub open spec fn worker_step(w: WorkerView, e: EventView) -> (WorkerView, ActionView) {
    match (w.phase, e) {
        (WorkerPhase::Waiting, EventView::Changed) => (
            WorkerView { phase: WorkerPhase::Debouncing, last_text: w.last_text },
            ActionView::StartTimer,
        ),
        (WorkerPhase::Debouncing, EventView::Changed) => (w, ActionView::StartTimer),
        (WorkerPhase::Debouncing, EventView::TimerElapsed(text)) => {
            if text == w.last_text || is_blank_text(text) {
                (
                    WorkerView { phase: WorkerPhase::Waiting, last_text: w.last_text },
                    ActionView::AwaitChange,
                )
            } else {
                (
                    WorkerView { phase: WorkerPhase::Checking, last_text: text },
                    ActionView::Check(text),
                )
            }
        },
        (WorkerPhase::Checking, EventView::Checked(recs)) => (
            WorkerView { phase: WorkerPhase::Waiting, last_text: w.last_text },
            ActionView::Send(recs),
        ),
        _ => (w, ActionView::Ignore),
    }
}

impl DebounceWorker {
    /// A worker that waits for the first change and has checked nothing yet.
    pub fn new() -> (w: Self)
        ensures
            w@.phase == WorkerPhase::Waiting,
            w@.last_text == Seq::<char>::empty(),
    {
        DebounceWorker { phase: WorkerPhase::Waiting, last_text: String::new() }
    }

    /// The action that starts the worker: wait for the first change.
    pub fn start(&self) -> (a: WorkerAction)
        ensures
            a@ == ActionView::AwaitChange,
    {
        WorkerAction::AwaitChange
    }

    /// Takes the event that the last action led to and gives the next action.
    pub fn step(&mut self, event: WorkerEvent) -> (a: WorkerAction)
        ensures
            (final(self)@, a@) == worker_step(old(self)@, event@),
    {
        match self.phase {
            WorkerPhase::Waiting => match event {
                WorkerEvent::Changed => {
                    self.phase = WorkerPhase::Debouncing;
                    WorkerAction::StartTimer
                },
                _ => WorkerAction::Ignore,
            },
            WorkerPhase::Debouncing => match event {
                WorkerEvent::Changed => WorkerAction::StartTimer,
                WorkerEvent::TimerElapsed(text) => {
                    if text == self.last_text || is_blank(text.as_str()) {
                        self.phase = WorkerPhase::Waiting;
                        WorkerAction::AwaitChange
                    } else {
                        self.phase = WorkerPhase::Checking;
                        self.last_text = text.clone();
                        WorkerAction::Check(text)
                    }
                },
                _ => WorkerAction::Ignore,
            },
            WorkerPhase::Checking => match event {
                WorkerEvent::Checked(recs) => {
                    self.phase = WorkerPhase::Waiting;
                    WorkerAction::Send(Suggestion(recs))
                },
                _ => WorkerAction::Ignore,
            },
        }
    }
}

/// When the settling timer ends, a debouncing worker checks the text of that moment exactly
/// when it differs from the text it checked last and holds something other than white space;
/// it then remembers that text. Otherwise it checks nothing, keeps its last text, and waits for
/// the next change.
pub proof fn law_settled_text_checked_unless_seen_or_blank(w: WorkerView, text: Seq<char>)
    requires
        w.phase == WorkerPhase::Debouncing,
    ensures
        text != w.last_text && (exists|i: int| 0 <= i < text.len() && !is_white_space(text[i]))
            ==> worker_step(w, EventView::TimerElapsed(text)) == (
            WorkerView { phase: WorkerPhase::Checking, last_text: text },
            ActionView::Check(text),
        ),
        text == w.last_text || (forall|i: int| 0 <= i < text.len() ==> is_white_space(text[i]))
            ==> worker_step(w, EventView::TimerElapsed(text)) == (
            WorkerView { phase: WorkerPhase::Waiting, last_text: w.last_text },
            ActionView::AwaitChange,
        ),
{
}

/// The actions of the worker for a sequence of events, from state `w`.
pub open spec fn worker_run(w: WorkerView, events: Seq<EventView>) -> Seq<ActionView>
    decreases events.len(),
{
    if events.len() == 0 {
        Seq::empty()
    } else {
        let (next, action) = worker_step(w, events[0]);
        seq![action] + worker_run(next, events.drop_first())
    }
}

/// The texts that a sequence of actions asks to check, in order.
pub open spec fn checked_texts(actions: Seq<ActionView>) -> Seq<Seq<char>>
    decreases actions.len(),
{
    if actions.len() == 0 {
        Seq::empty()
    } else {
        let rest = checked_texts(actions.drop_first());
        match actions[0] {
            ActionView::Check(t) => seq![t] + rest,
            _ => rest,
        }
    }
}

/// Whatever the events, the worker never asks to check a blank text, never asks for the
/// text it asked for last (the first check differs from the worker's last text), and so
/// never asks for the same text twice in a row.
pub proof fn law_checks_are_fresh(w: WorkerView, events: Seq<EventView>)
    ensures
        forall|i: int|
            0 <= i < checked_texts(worker_run(w, events)).len() ==> !is_blank_text(
                #[trigger] checked_texts(worker_run(w, events))[i],
            ),
        checked_texts(worker_run(w, events)).len() > 0 ==> checked_texts(worker_run(w, events))[0]
            != w.last_text,
        forall|i: int|
            0 < i < checked_texts(worker_run(w, events)).len() ==> #[trigger] checked_texts(
                worker_run(w, events),
            )[i] != checked_texts(worker_run(w, events))[i - 1],
    decreases events.len(),
{
    if events.len() > 0 {
        let (next, action) = worker_step(w, events[0]);
        let rest = worker_run(next, events.drop_first());
        law_checks_are_fresh(next, events.drop_first());
        let actions = worker_run(w, events);
        assert(actions =~= seq![action] + rest);
        assert(actions.drop_first() =~= rest);
        assert(actions[0] == action);
        let c = checked_texts(actions);
        let cr = checked_texts(rest);
        match action {
            ActionView::Check(t) => {
                assert(c =~= seq![t] + cr);
                assert(next.last_text == t);
            },
            _ => {
                assert(c =~= cr);
                assert(next.last_text == w.last_text);
            },
        }
    }
}


/// The worker's state after the first `k` events.
pub open spec fn worker_state_at(w: WorkerView, events: Seq<EventView>, k: int) -> WorkerView
    decreases k,
{
    if k <= 0 || events.len() == 0 {
        w
    } else {
        worker_state_at(worker_step(w, events[0]).0, events.drop_first(), k - 1)
    }
}

/// A run gives one action per event; the `k`-th is the step from the state after `k`
/// events, and that step leads to the state after `k + 1` events.
pub proof fn lemma_run_at(w: WorkerView, events: Seq<EventView>, k: int)
    requires
        0 <= k < events.len(),
    ensures
        worker_run(w, events).len() == events.len(),
        worker_run(w, events)[k] == worker_step(worker_state_at(w, events, k), events[k]).1,
        worker_state_at(w, events, k + 1) == worker_step(worker_state_at(w, events, k), events[k]).0,
    decreases k,
{
    lemma_run_len(w, events);
    let next = worker_step(w, events[0]).0;
    let rest = events.drop_first();
    assert(worker_run(w, events) =~= seq![worker_step(w, events[0]).1] + worker_run(next, rest));
    assert(worker_state_at(w, events, k + 1) == worker_state_at(next, rest, k));
    if k > 0 {
        lemma_run_at(next, rest, k - 1);
        assert(rest[k - 1] == events[k]);
        assert(worker_state_at(w, events, k) == worker_state_at(next, rest, k - 1));
    } else {
        assert(worker_state_at(next, rest, 0) == next);
        assert(worker_state_at(w, events, 0) == w);
    }
}

/// A run gives one action per event.
pub proof fn lemma_run_len(w: WorkerView, events: Seq<EventView>)
    ensures
        worker_run(w, events).len() == events.len(),
    decreases events.len(),
{
    if events.len() > 0 {
        lemma_run_len(worker_step(w, events[0]).0, events.drop_first());
    }
}

/// Where the worker debounces after `k` events, having started out waiting, the last action
/// before that was not ignored started the timer.
proof fn lemma_debouncing_after_timer(w: WorkerView, events: Seq<EventView>, k: int)
    requires
        w.phase == WorkerPhase::Waiting,
        0 <= k <= events.len(),
        worker_state_at(w, events, k).phase == WorkerPhase::Debouncing,
    ensures
        exists|j: int|
            0 <= j < k && worker_run(w, events)[j] == ActionView::StartTimer && forall|i: int|
                j < i < k ==> #[trigger] worker_run(w, events)[i] == ActionView::Ignore,
    decreases k,
{
    if k == 0 {
        assert(worker_state_at(w, events, 0) == w);
    } else {
        lemma_run_at(w, events, k - 1);
        let a = worker_run(w, events)[k - 1];
        if a == ActionView::StartTimer {
            assert(forall|i: int| k - 1 < i < k ==> #[trigger] worker_run(w, events)[i] == ActionView::Ignore);
        } else {
            lemma_debouncing_after_timer(w, events, k - 1);
            let j = choose|j: int|
                0 <= j < k - 1 && worker_run(w, events)[j] == ActionView::StartTimer && forall|i: int|
                    j < i < k - 1 ==> #[trigger] worker_run(w, events)[i] == ActionView::Ignore;
            assert forall|i: int| j < i < k implies #[trigger] worker_run(w, events)[i]
                == ActionView::Ignore by {
                if i == k - 1 {
                }
            }
        }
    }
}

/// Where the worker awaits a check's result after `k` events, having started out not
/// awaiting one, the last action before that was not ignored asked for that check.
proof fn lemma_checking_after_check(w: WorkerView, events: Seq<EventView>, k: int)
    requires
        w.phase != WorkerPhase::Checking,
        0 <= k <= events.len(),
        worker_state_at(w, events, k).phase == WorkerPhase::Checking,
    ensures
        exists|j: int|
            0 <= j < k && (worker_run(w, events)[j] is Check) && forall|i: int|
                j < i < k ==> #[trigger] worker_run(w, events)[i] == ActionView::Ignore,
    decreases k,
{
    if k == 0 {
        assert(worker_state_at(w, events, 0) == w);
    } else {
        lemma_run_at(w, events, k - 1);
        let a = worker_run(w, events)[k - 1];
        if a is Check {
            assert(forall|i: int| k - 1 < i < k ==> #[trigger] worker_run(w, events)[i] == ActionView::Ignore);
        } else {
            lemma_checking_after_check(w, events, k - 1);
            let j = choose|j: int|
                0 <= j < k - 1 && (worker_run(w, events)[j] is Check) && forall|i: int|
                    j < i < k - 1 ==> #[trigger] worker_run(w, events)[i] == ActionView::Ignore;
            assert forall|i: int| j < i < k implies #[trigger] worker_run(w, events)[i]
                == ActionView::Ignore by {
                if i == k - 1 {
                }
            }
        }
    }
}

/// A worker that awaits a check's result keeps awaiting it, ignoring every event, until a
/// result arrives.
proof fn lemma_checking_waits(w: WorkerView, events: Seq<EventView>, m: int, j: int)
    requires
        0 <= m <= j <= events.len(),
        worker_state_at(w, events, m).phase == WorkerPhase::Checking,
        forall|i: int| m <= i < j ==> !(#[trigger] events[i] is Checked),
    ensures
        worker_state_at(w, events, j) == worker_state_at(w, events, m),
        forall|i: int| m <= i < j ==> #[trigger] worker_run(w, events)[i] == ActionView::Ignore,
    decreases j - m,
{
    if m < j {
        lemma_run_at(w, events, m);
        assert(!(events[m] is Checked));
        lemma_checking_waits(w, events, m + 1, j);
    }
}

/// The worker asks for a check only when the settling timer has ended: the event is the end
/// of the timer and the check is for the text at that moment, and the timer was started by
/// the last action before that was not ignored, so no change came in between. This holds of
/// every run from a waiting worker, as `DebounceWorker::new` makes.
pub proof fn law_check_follows_settled_timer(w: WorkerView, events: Seq<EventView>, k: int)
    requires
        w.phase == WorkerPhase::Waiting,
        0 <= k < events.len(),
        worker_run(w, events)[k] is Check,
    ensures
        events[k] == EventView::TimerElapsed(worker_run(w, events)[k]->Check_0),
        exists|j: int|
            0 <= j < k && worker_run(w, events)[j] == ActionView::StartTimer && forall|i: int|
                j < i < k ==> #[trigger] worker_run(w, events)[i] == ActionView::Ignore,
{
    lemma_run_at(w, events, k);
    lemma_debouncing_after_timer(w, events, k);
}

/// Each check is answered by exactly one send, of the recommendations of the first result
/// that arrives after it, and the worker does nothing else in between.
pub proof fn law_check_answered_by_one_send(
    w: WorkerView,
    events: Seq<EventView>,
    k: int,
    j: int,
)
    requires
        0 <= k < j < events.len(),
        worker_run(w, events)[k] is Check,
        events[j] is Checked,
        forall|i: int| k < i < j ==> !(#[trigger] events[i] is Checked),
    ensures
        worker_run(w, events)[j] == ActionView::Send(events[j]->Checked_0),
        forall|i: int| k < i < j ==> #[trigger] worker_run(w, events)[i] == ActionView::Ignore,
{
    lemma_run_at(w, events, k);
    lemma_checking_waits(w, events, k + 1, j);
    lemma_run_at(w, events, j);
}

/// Nothing is sent that no check produced: each send passes on the result that arrived with
/// its event, and follows a check with nothing but ignored events in between. This holds of
/// every run from a worker that awaits no result.
pub proof fn law_send_answers_a_check(w: WorkerView, events: Seq<EventView>, j: int)
    requires
        w.phase != WorkerPhase::Checking,
        0 <= j < events.len(),
        worker_run(w, events)[j] is Send,
    ensures
        events[j] == EventView::Checked(worker_run(w, events)[j]->Send_0),
        exists|k: int|
            0 <= k < j && (worker_run(w, events)[k] is Check) && forall|i: int|
                k < i < j ==> #[trigger] worker_run(w, events)[i] == ActionView::Ignore,
{
    lemma_run_at(w, events, j);
    lemma_checking_after_check(w, events, j);
}

/// A waiting worker to which no change arrives does nothing: it checks nothing and sends
/// nothing, whatever else happens.
pub proof fn law_no_change_no_work(w: WorkerView, events: Seq<EventView>)
    requires
        w.phase == WorkerPhase::Waiting,
        forall|i: int| 0 <= i < events.len() ==> #[trigger] events[i] != EventView::Changed,
    ensures
        worker_run(w, events).len() == events.len(),
        forall|i: int|
            0 <= i < events.len() ==> #[trigger] worker_run(w, events)[i] == ActionView::Ignore,
    decreases events.len(),
{
    lemma_run_len(w, events);
    if events.len() > 0 {
        let rest = events.drop_first();
        assert(events[0] != EventView::Changed);
        assert(worker_step(w, events[0]) == (w, ActionView::Ignore));
        assert forall|i: int| 0 <= i < rest.len() implies #[trigger] rest[i] != EventView::Changed by {
            assert(rest[i] == events[i + 1]);
        }
        law_no_change_no_work(w, rest);
        assert(worker_run(w, events) =~= seq![ActionView::Ignore] + worker_run(w, rest));
    }
}

} // verus!
