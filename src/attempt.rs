use vstd::prelude::*;
use crate::classify::{hardened, is_hardened};
use crate::resolve::{
    matching_pids, pid_matches, pids_distinct, resolve_by_name, resolve_by_pid, ProcessEntry,
};
use crate::slide::{compute_slide, slide_result, Failure};

verus! {

/// How a target was named.
#[derive(Clone, Copy, Debug, PartialEq, Eq, Structural)]
pub enum Origin {
    /// By its process id: it is attempted whatever its protection.
    ExplicitPid,
    /// By a match of its name: a hardened process is skipped.
    NameMatch,
}

/// Where a target stands in its pipeline.
#[derive(Clone, Copy, Debug, PartialEq, Eq, Structural)]
pub enum Phase {
    /// Not started.
    Pending,
    /// Waiting for its code-signing status.
    Classifying,
    /// Waiting for its task handle.
    Acquiring,
    /// Holding a task handle, waiting for the first-region query.
    Querying,
    /// Done: reported, or skipped.
    Finished,
}

/// What the caller observed, handed back to the pipeline.
#[derive(Clone, Copy, Debug, PartialEq, Eq)]
pub enum Event {
    /// The caller is ready to begin the target.
    Start,
    /// The code-signing status word, or `None` when the query failed.
    Status(Option<u32>),
    /// Whether the task handle was obtained.
    TaskGrab(bool),
    /// The start of the lowest mapped region, or `None` when the query failed.
    Region(Option<u64>),
}

/// What the caller is to do next for the target.
#[derive(Clone, Copy, Debug, PartialEq, Eq)]
pub enum Action {
    /// Query the code-signing status of the process.
    QueryStatus,
    /// Request a task handle for the process.
    AcquireTask,
    /// Query the lowest mapped region through the task handle.
    QueryRegion,
    /// Drop the target without an outcome: it is hardened and was found by name.
    Skip,
    /// Report the target's outcome; release the task handle first if one is held.
    Finish { result: Result<u32, Failure>, release_task: bool },
    /// The event does not fit the target's phase: nothing to do.
    Idle,
}

/// One target of a run and the point its pipeline has reached.
#[derive(Clone, Copy, Debug, PartialEq, Eq)]
pub struct Attempt {
    pub pid: u32,
    pub origin: Origin,
    pub phase: Phase,
}

/// One transition of a target's pipeline: an explicit pid goes straight to the
/// task handle; a name match is classified first and skipped when hardened;
/// then the handle, then the region, then the outcome. Any other event leaves
/// the target as it is.
pub open spec fn step(a: Attempt, event: Event, expected_base: u64) -> (Attempt, Action) {
    match (a.phase, event) {
        (Phase::Pending, Event::Start) => match a.origin {
            Origin::ExplicitPid => (Attempt { phase: Phase::Acquiring, ..a }, Action::AcquireTask),
            Origin::NameMatch => (Attempt { phase: Phase::Classifying, ..a }, Action::QueryStatus),
        },
        (Phase::Classifying, Event::Status(query)) => if hardened(query) {
            (Attempt { phase: Phase::Finished, ..a }, Action::Skip)
        } else {
            (Attempt { phase: Phase::Acquiring, ..a }, Action::AcquireTask)
        },
        (Phase::Acquiring, Event::TaskGrab(granted)) => if granted {
            (Attempt { phase: Phase::Querying, ..a }, Action::QueryRegion)
        } else {
            (
                Attempt { phase: Phase::Finished, ..a },
                Action::Finish { result: Err(Failure::TaskGrabFailure), release_task: false },
            )
        },
        (Phase::Querying, Event::Region(region)) => (
            Attempt { phase: Phase::Finished, ..a },
            Action::Finish { result: slide_result(region, expected_base), release_task: true },
        ),
        _ => (a, Action::Idle),
    }
}

/// The actions a target's pipeline gives for a sequence of events, in order.
pub open spec fn trace(a: Attempt, events: Seq<Event>, expected_base: u64) -> Seq<Action>
    decreases events.len(),
{
    if events.len() == 0 {
        Seq::empty()
    } else {
        let (next, action) = step(a, events[0], expected_base);
        seq![action] + trace(next, events.drop_first(), expected_base)
    }
}

impl Attempt {
    /// A target named by its process id.
    pub fn explicit(pid: u32) -> (r: Attempt)
        ensures
            r == (Attempt { pid, origin: Origin::ExplicitPid, phase: Phase::Pending }),
    {
        Attempt { pid, origin: Origin::ExplicitPid, phase: Phase::Pending }
    }

    /// A target found by a match of its name.
    pub fn discovered(pid: u32) -> (r: Attempt)
        ensures
            r == (Attempt { pid, origin: Origin::NameMatch, phase: Phase::Pending }),
    {
        Attempt { pid, origin: Origin::NameMatch, phase: Phase::Pending }
    }

    /// The target has reached the end of its pipeline.
    pub fn is_finished(&self) -> (r: bool)
        ensures
            r == (self.phase == Phase::Finished),
    {
        self.phase == Phase::Finished
    }

    /// Feeds one observation to the target's pipeline and returns what the
    /// caller is to do next; every slide is measured against `expected_base`.
    pub fn advance(&mut self, event: Event, expected_base: u64) -> (r: Action)
        ensures
            (*final(self), r) == step(*old(self), event, expected_base),
    {
        match (self.phase, event) {
            (Phase::Pending, Event::Start) => match self.origin {
                Origin::ExplicitPid => {
                    self.phase = Phase::Acquiring;
                    Action::AcquireTask
                },
                Origin::NameMatch => {
                    self.phase = Phase::Classifying;
                    Action::QueryStatus
                },
            },
            (Phase::Classifying, Event::Status(query)) => {
                if is_hardened(query) {
                    self.phase = Phase::Finished;
                    Action::Skip
                } else {
                    self.phase = Phase::Acquiring;
                    Action::AcquireTask
                }
            },
            (Phase::Acquiring, Event::TaskGrab(granted)) => {
                if granted {
                    self.phase = Phase::Querying;
                    Action::QueryRegion
                } else {
                    self.phase = Phase::Finished;
                    Action::Finish { result: Err(Failure::TaskGrabFailure), release_task: false }
                }
            },
            (Phase::Querying, Event::Region(region)) => {
                self.phase = Phase::Finished;
                Action::Finish { result: compute_slide(region, expected_base), release_task: true }
            },
            _ => Action::Idle,
        }
    }
}

/// A run's target as the caller gave it: a process id, or a process name.
#[derive(Debug)]
pub enum TargetSpec {
    Pid(u32),
    Name(String),
}

impl TargetSpec {
    /// A nonzero pid names the target; a pid of zero means none was given,
    /// and the name is used.
    pub fn from_args(pid: u32, name: String) -> (r: TargetSpec)
        ensures
            pid != 0 ==> r == TargetSpec::Pid(pid),
            pid == 0 ==> r == TargetSpec::Name(name),
    {
        if pid != 0 {
            TargetSpec::Pid(pid)
        } else {
            TargetSpec::Name(name)
        }
    }
}

/// The process ids of a list of targets, in order.
pub open spec fn attempt_pids(attempts: Seq<Attempt>) -> Seq<u32> {
    attempts.map_values(|a: Attempt| a.pid)
}

/// The targets of an explicit process id: that process alone.
pub fn attempts_for_pid(pid: u32) -> (r: Vec<Attempt>)
    ensures
        r@ == seq![Attempt { pid, origin: Origin::ExplicitPid, phase: Phase::Pending }],
{
    let pids = resolve_by_pid(pid);
    let mut r: Vec<Attempt> = Vec::new();
    r.push(Attempt::explicit(pids[0]));
    r
}

/// The targets of a process name: one per distinct id of a live process that
/// carries it, each to be classified before its task handle is requested.
/// `listing` is the process listing, or `None` when it could not be obtained.
pub fn attempts_for_name(listing: Option<Vec<ProcessEntry>>, query: &String) -> (r: Result<
    Vec<Attempt>,
    Failure,
>)
    ensures
        listing is None ==> r == Err::<Vec<Attempt>, Failure>(Failure::EnumerationFailed),
        listing is Some ==> {
            let entries = listing->0@;
            &&& r == Err::<Vec<Attempt>, Failure>(Failure::TargetNotFound) <==> forall|pid: u32|
                !pid_matches(entries, query@, pid)
            &&& r is Err ==> r == Err::<Vec<Attempt>, Failure>(Failure::TargetNotFound)
            &&& r is Ok ==> {
                let attempts = r->Ok_0@;
                &&& forall|i: int|
                    0 <= i < attempts.len() ==> (#[trigger] attempts[i]).origin == Origin::NameMatch
                        && attempts[i].phase == Phase::Pending
                &&& attempt_pids(attempts).no_duplicates()
                &&& forall|pid: u32|
                    attempt_pids(attempts).contains(pid) <==> pid_matches(entries, query@, pid)
                &&& pids_distinct(entries) ==> attempt_pids(attempts) == matching_pids(
                    entries,
                    query@,
                )
            }
        },
{
    match resolve_by_name(listing, query) {
        Err(e) => Err(e),
        Ok(pids) => {
            let mut r: Vec<Attempt> = Vec::new();
            let mut i: usize = 0;
            while i < pids.len()
                invariant
                    0 <= i <= pids.len(),
                    r@.len() == i,
                    forall|k: int|
                        0 <= k < i ==> (#[trigger] r@[k]) == (Attempt {
                            pid: pids@[k],
                            origin: Origin::NameMatch,
                            phase: Phase::Pending,
                        }),
                decreases pids.len() - i,
            {
                r.push(Attempt::discovered(pids[i]));
                i = i + 1;
            }
            assert(attempt_pids(r@) =~= pids@);
            Ok(r)
        },
    }
}

/// A target gives one action for each event.
pub proof fn lemma_trace_len(a: Attempt, events: Seq<Event>, expected_base: u64)
    ensures
        trace(a, events, expected_base).len() == events.len(),
    decreases events.len(),
{
    if events.len() > 0 {
        lemma_trace_len(step(a, events[0], expected_base).0, events.drop_first(), expected_base);
    }
}

/// A finished target does nothing more, whatever it is told.
pub proof fn lemma_finished_stays_idle(a: Attempt, events: Seq<Event>, expected_base: u64)
    requires
        a.phase == Phase::Finished,
    ensures
        forall|k: int| 0 <= k < events.len() ==> trace(a, events, expected_base)[k] == Action::Idle,
    decreases events.len(),
{
    lemma_trace_len(a, events, expected_base);
    if events.len() > 0 {
        lemma_finished_stays_idle(a, events.drop_first(), expected_base);
        lemma_trace_len(a, events.drop_first(), expected_base);
        let t = trace(a, events, expected_base);
        assert forall|k: int| 0 <= k < events.len() implies t[k] == Action::Idle by {
            if k > 0 {
                assert(t[k] == trace(a, events.drop_first(), expected_base)[k - 1]);
            }
        }
    }
}

/// A target named by its process id is never classified: whatever happens,
/// its pipeline never asks for a code-signing status, and its first step is
/// the request for its task handle, hardened or not.
pub proof fn lemma_explicit_pid_skips_classifier(pid: u32, events: Seq<Event>, expected_base: u64)
    requires
        events.len() > 0,
        events[0] == Event::Start,
    ensures
        trace(Attempt { pid, origin: Origin::ExplicitPid, phase: Phase::Pending }, events, expected_base)[0]
            == Action::AcquireTask,
        !trace(Attempt { pid, origin: Origin::ExplicitPid, phase: Phase::Pending }, events, expected_base).contains(
            Action::QueryStatus,
        ),
{
    lemma_explicit_never_queries_status(
        Attempt { pid, origin: Origin::ExplicitPid, phase: Phase::Pending },
        events,
        expected_base,
    );
}

proof fn lemma_explicit_never_queries_status(a: Attempt, events: Seq<Event>, expected_base: u64)
    requires
        a.origin == Origin::ExplicitPid,
    ensures
        !trace(a, events, expected_base).contains(Action::QueryStatus),
    decreases events.len(),
{
    if events.len() > 0 {
        let (next, action) = step(a, events[0], expected_base);
        lemma_explicit_never_queries_status(next, events.drop_first(), expected_base);
        let rest = trace(next, events.drop_first(), expected_base);
        let t = trace(a, events, expected_base);
        assert(t == seq![action] + rest);
        if t.contains(Action::QueryStatus) {
            let k = choose|k: int| 0 <= k < t.len() && t[k] == Action::QueryStatus;
            if k > 0 {
                assert(rest[k - 1] == Action::QueryStatus);
            }
        }
    }
}

/// A hardened process found by name is skipped as soon as it is classified:
/// its pipeline never requests its task handle.
pub proof fn lemma_hardened_match_never_acquired(
    pid: u32,
    status: Option<u32>,
    rest: Seq<Event>,
    expected_base: u64,
)
    requires
        hardened(status),
    ensures
        ({
            let t = trace(
                Attempt { pid, origin: Origin::NameMatch, phase: Phase::Pending },
                seq![Event::Start, Event::Status(status)] + rest,
                expected_base,
            );
            &&& t[0] == Action::QueryStatus
            &&& t[1] == Action::Skip
            &&& !t.contains(Action::AcquireTask)
        }),
{
    let a0 = Attempt { pid, origin: Origin::NameMatch, phase: Phase::Pending };
    let a1 = Attempt { phase: Phase::Classifying, ..a0 };
    let a2 = Attempt { phase: Phase::Finished, ..a0 };
    let events = seq![Event::Start, Event::Status(status)] + rest;
    assert(events.drop_first() == seq![Event::Status(status)] + rest);
    assert((seq![Event::Status(status)] + rest).drop_first() == rest);
    lemma_finished_stays_idle(a2, rest, expected_base);
    lemma_trace_len(a2, rest, expected_base);
    let tail = trace(a2, rest, expected_base);
    let t = trace(a0, events, expected_base);
    assert(step(a0, Event::Start, expected_base) == (a1, Action::QueryStatus));
    assert(step(a1, Event::Status(status), expected_base) == (a2, Action::Skip));
    assert(trace(a1, events.drop_first(), expected_base) == seq![Action::Skip] + tail);
    assert(t == seq![Action::QueryStatus] + (seq![Action::Skip] + tail));
    if t.contains(Action::AcquireTask) {
        let k = choose|k: int| 0 <= k < t.len() && t[k] == Action::AcquireTask;
        if k > 1 {
            assert(tail[k - 2] == Action::AcquireTask);
        }
    }
}

} // verus!
