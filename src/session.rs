//! The run as a state machine: the confirmation before deleting, the deletion
//! pass, at most one user-gated retry of its failures, and the failure log.
//!
//! The driver performs each `Action` (a prompt, a pass, writing the log) and
//! hands what came of it back as an `Event`.

use vstd::prelude::*;

verus! {

/// Where a run stands.
#[derive(Clone, Copy, Debug, PartialEq, Eq, Structural)]
pub enum Phase {
    /// Waiting for the answer to "delete these entries?".
    Confirming,
    /// The deletion pass is running.
    Deleting,
    /// Waiting for the answer to "retry the failures?".
    AskingRetry,
    /// The retry pass over the failures is running.
    Retrying,
    Done,
}

/// What the driver reports.
#[derive(Debug)]
pub enum Event {
    /// The user's answer to the current prompt.
    Answer(bool),
    /// The deletion pass ended with these failed entries (positions in the entry list).
    PassFinished(Vec<usize>),
    /// The retry pass ended with these entries still failing (positions in the failure list).
    RetryFinished(Vec<usize>),
}

/// What the driver is to do next.
#[derive(Clone, Copy, Debug, PartialEq, Eq, Structural)]
pub enum Action {
    /// Nothing was found beneath the target: say so and stop, with no prompt.
    ReportEmpty,
    /// Show the count found and ask whether to delete.
    AskDelete,
    /// The user declined: say so and stop; nothing is touched.
    Cancel,
    /// Run the deletion pass over every entry.
    RunPass,
    /// Ask whether to retry the failed entries.
    AskRetry,
    /// Run one more pass over the failed entries.
    RunRetry,
    /// Write the failure list of the deletion pass to the log, then stop.
    WriteLog,
    /// Everything was deleted: stop.
    Finish,
    /// The event does not fit the phase: nothing to do.
    Nothing,
}

pub open spec fn start_spec(found: nat) -> (Phase, Action) {
    if found == 0 {
        (Phase::Done, Action::ReportEmpty)
    } else {
        (Phase::Confirming, Action::AskDelete)
    }
}

/// One step of the run: the phase, the failure list of the deletion pass, and
/// an event, to the next phase, failure list and action.
pub open spec fn transition(phase: Phase, failures: Seq<usize>, e: Event) -> (
    Phase,
    Seq<usize>,
    Action,
) {
    match (phase, e) {
        (Phase::Confirming, Event::Answer(yes)) => if yes {
            (Phase::Deleting, failures, Action::RunPass)
        } else {
            (Phase::Done, failures, Action::Cancel)
        },
        (Phase::Deleting, Event::PassFinished(f)) => if f@.len() == 0 {
            (Phase::Done, f@, Action::Finish)
        } else {
            (Phase::AskingRetry, f@, Action::AskRetry)
        },
        (Phase::AskingRetry, Event::Answer(yes)) => if yes {
            (Phase::Retrying, failures, Action::RunRetry)
        } else {
            (Phase::Done, failures, Action::WriteLog)
        },
        (Phase::Retrying, Event::RetryFinished(_)) => (Phase::Done, failures, Action::WriteLog),
        _ => (phase, failures, Action::Nothing),
    }
}

/// The actions issued for a sequence of events.
pub open spec fn run(phase: Phase, failures: Seq<usize>, events: Seq<Event>) -> Seq<Action>
    decreases events.len(),
{
    if events.len() == 0 {
        Seq::empty()
    } else {
        let (p, f, a) = transition(phase, failures, events[0]);
        seq![a] + run(p, f, events.drop_first())
    }
}

/// The phase and failure list after a sequence of events.
pub open spec fn state_after(phase: Phase, failures: Seq<usize>, events: Seq<Event>) -> (
    Phase,
    Seq<usize>,
)
    decreases events.len(),
{
    if events.len() == 0 {
        (phase, failures)
    } else {
        let (p, f, a) = transition(phase, failures, events[0]);
        state_after(p, f, events.drop_first())
    }
}

/// An action that changes the filesystem.
pub open spec fn is_mutation(a: Action) -> bool {
    a == Action::RunPass || a == Action::RunRetry || a == Action::WriteLog
}

pub open spec fn count_action(actions: Seq<Action>, a: Action) -> nat
    decreases actions.len(),
{
    if actions.len() == 0 {
        0
    } else {
        (if actions[0] == a {
            1nat
        } else {
            0nat
        }) + count_action(actions.drop_first(), a)
    }
}

/// Passes over the failures that may still come from a phase.
pub open spec fn retries_left(p: Phase) -> nat {
    match p {
        Phase::Retrying | Phase::Done => 0,
        _ => 1,
    }
}

/// Deletion passes that may still come from a phase.
pub open spec fn passes_left(p: Phase) -> nat {
    match p {
        Phase::Confirming => 1,
        _ => 0,
    }
}

/// Log writes that may still come from a phase.
pub open spec fn logs_left(p: Phase) -> nat {
    match p {
        Phase::Done => 0,
        _ => 1,
    }
}

/// A run.
pub struct Session {
    phase: Phase,
    failures: Vec<usize>,
}

impl View for Session {
    type V = (Phase, Seq<usize>);

    /// The phase, and the failure list of the deletion pass (empty before it ends).
    closed spec fn view(&self) -> (Phase, Seq<usize>) {
        (self.phase, self.failures@)
    }
}

impl Session {
    /// A run over `found` collected entries, and its first action.
    pub fn start(found: usize) -> (r: (Session, Action))
        ensures
            (r.0@.0, r.1) == start_spec(found as nat),
            r.0@.1 == Seq::<usize>::empty(),
    {
        let s = if found == 0 {
            (Session { phase: Phase::Done, failures: Vec::new() }, Action::ReportEmpty)
        } else {
            (Session { phase: Phase::Confirming, failures: Vec::new() }, Action::AskDelete)
        };
        s
    }

    /// Takes in what came of the last action, and gives the next.
    pub fn step(&mut self, e: Event) -> (a: Action)
        ensures
            (final(self)@.0, final(self)@.1, a) == transition(old(self)@.0, old(self)@.1, e),
    {
        match (self.phase, e) {
            (Phase::Confirming, Event::Answer(yes)) => if yes {
                self.phase = Phase::Deleting;
                Action::RunPass
            } else {
                self.phase = Phase::Done;
                Action::Cancel
            },
            (Phase::Deleting, Event::PassFinished(f)) => if f.len() == 0 {
                self.phase = Phase::Done;
                self.failures = f;
                Action::Finish
            } else {
                self.phase = Phase::AskingRetry;
                self.failures = f;
                Action::AskRetry
            },
            (Phase::AskingRetry, Event::Answer(yes)) => if yes {
                self.phase = Phase::Retrying;
                Action::RunRetry
            } else {
                self.phase = Phase::Done;
                Action::WriteLog
            },
            (Phase::Retrying, Event::RetryFinished(_)) => {
                self.phase = Phase::Done;
                Action::WriteLog
            },
            _ => Action::Nothing,
        }
    }

    pub fn phase(&self) -> (r: Phase)
        ensures
            r == self@.0,
    {
        self.phase
    }

    /// The failure list of the deletion pass: what a retry goes over and what
    /// the log holds.
    pub fn failures(&self) -> (r: Vec<usize>)
        ensures
            r@ == self@.1,
    {
        let r = self.failures.clone();
        assert(r@ =~= self.failures@);
        r
    }
}

proof fn lemma_done_is_quiet(f: Seq<usize>, events: Seq<Event>)
    ensures
        forall|i: int| 0 <= i < events.len() ==> #[trigger] run(Phase::Done, f, events)[i]
            == Action::Nothing,
        run(Phase::Done, f, events).len() == events.len(),
    decreases events.len(),
{
    if events.len() > 0 {
        lemma_done_is_quiet(f, events.drop_first());
        let r = run(Phase::Done, f, events);
        assert forall|i: int| 0 <= i < events.len() implies #[trigger] r[i] == Action::Nothing by {
            if i > 0 {
                assert(r[i] == run(Phase::Done, f, events.drop_first())[i - 1]);
            }
        }
    }
}

/// With nothing found, the run ends at once: it reports the empty result, and
/// whatever the driver hands in afterwards, it never prompts nor changes anything.
pub proof fn lemma_empty_tree_ends_at_once(events: Seq<Event>)
    ensures
        start_spec(0) == (Phase::Done, Action::ReportEmpty),
        forall|i: int|
            0 <= i < events.len() ==> #[trigger] run(start_spec(0).0, Seq::empty(), events)[i]
                == Action::Nothing,
{
    lemma_done_is_quiet(Seq::empty(), events);
}

/// Answering anything but yes to the first prompt cancels the run: no
/// deletion pass, no retry and no log write follows, whatever comes after.
pub proof fn lemma_declining_touches_nothing(found: nat, events: Seq<Event>)
    requires
        found > 0,
    ensures
        forall|i: int|
            0 <= i < events.len() + 1 ==> !is_mutation(
                #[trigger] run(
                    start_spec(found).0,
                    Seq::empty(),
                    seq![Event::Answer(false)] + events,
                )[i],
            ),
{
    let all = seq![Event::Answer(false)] + events;
    assert(all.drop_first() =~= events);
    lemma_done_is_quiet(Seq::empty(), events);
    let r = run(Phase::Confirming, Seq::empty(), all);
    assert(r == seq![Action::Cancel] + run(Phase::Done, Seq::empty(), events));
    assert forall|i: int| 0 <= i < events.len() + 1 implies !is_mutation(#[trigger] r[i]) by {
        if i > 0 {
            assert(r[i] == run(Phase::Done, Seq::<usize>::empty(), events)[i - 1]);
        }
    }
}

/// Whatever the events, a run makes at most one deletion pass, at most one
/// retry (retries never chain) and writes the log at most once.
pub proof fn lemma_at_most_once(phase: Phase, failures: Seq<usize>, events: Seq<Event>)
    ensures
        count_action(run(phase, failures, events), Action::RunPass) <= passes_left(phase),
        count_action(run(phase, failures, events), Action::RunRetry) <= retries_left(phase),
        count_action(run(phase, failures, events), Action::WriteLog) <= logs_left(phase),
    decreases events.len(),
{
    if events.len() > 0 {
        let (p, f, a) = transition(phase, failures, events[0]);
        lemma_at_most_once(p, f, events.drop_first());
        let r = run(phase, failures, events);
        assert(r[0] == a);
        assert(r.drop_first() =~= run(p, f, events.drop_first()));
    }
}

/// Once the deletion pass has failed on a non-empty list, the log is written
/// whether the user declines the retry or accepts it, and whatever the retry
/// comes to; at that point the list it is written from is still the failure
/// list of the deletion pass.
pub proof fn lemma_log_holds_first_failures(
    failed: Vec<usize>,
    retry: bool,
    still_failing: Vec<usize>,
)
    requires
        failed@.len() > 0,
    ensures
        ({
            let events = if retry {
                seq![
                    Event::PassFinished(failed),
                    Event::Answer(true),
                    Event::RetryFinished(still_failing),
                ]
            } else {
                seq![Event::PassFinished(failed), Event::Answer(false)]
            };
            &&& run(Phase::Deleting, Seq::empty(), events).last() == Action::WriteLog
            &&& state_after(Phase::Deleting, Seq::empty(), events) == (Phase::Done, failed@)
        }),
{
    let events = if retry {
        seq![Event::PassFinished(failed), Event::Answer(true), Event::RetryFinished(still_failing)]
    } else {
        seq![Event::PassFinished(failed), Event::Answer(false)]
    };
    let e1 = events.drop_first();
    let e2 = e1.drop_first();
    assert(events[0] == Event::PassFinished(failed));
    assert(transition(Phase::Deleting, Seq::empty(), events[0]) == (
        Phase::AskingRetry,
        failed@,
        Action::AskRetry,
    ));
    if retry {
        let e3 = e2.drop_first();
        assert(e1[0] == Event::Answer(true));
        assert(e2[0] == Event::RetryFinished(still_failing));
        assert(e3.len() == 0);
        assert(run(Phase::Done, failed@, e3) == Seq::<Action>::empty());
        assert(state_after(Phase::Done, failed@, e3) == (Phase::Done, failed@));
        assert(run(Phase::Retrying, failed@, e2) =~= seq![Action::WriteLog]);
        assert(state_after(Phase::Retrying, failed@, e2) == (Phase::Done, failed@));
        assert(run(Phase::AskingRetry, failed@, e1) =~= seq![Action::RunRetry, Action::WriteLog]);
        assert(state_after(Phase::AskingRetry, failed@, e1) == (Phase::Done, failed@));
        assert(run(Phase::Deleting, Seq::empty(), events) =~= seq![
            Action::AskRetry,
            Action::RunRetry,
            Action::WriteLog,
        ]);
        assert(state_after(Phase::Deleting, Seq::empty(), events) == (Phase::Done, failed@));
    } else {
        assert(e1[0] == Event::Answer(false));
        assert(e2.len() == 0);
        assert(run(Phase::Done, failed@, e2) == Seq::<Action>::empty());
        assert(state_after(Phase::Done, failed@, e2) == (Phase::Done, failed@));
        assert(run(Phase::AskingRetry, failed@, e1) =~= seq![Action::WriteLog]);
        assert(state_after(Phase::AskingRetry, failed@, e1) == (Phase::Done, failed@));
        assert(run(Phase::Deleting, Seq::empty(), events) =~= seq![
            Action::AskRetry,
            Action::WriteLog,
        ]);
        assert(state_after(Phase::Deleting, Seq::empty(), events) == (Phase::Done, failed@));
    }
}

} // verus!
