//! The drive-readiness state machine. A drive reports a noisy status
//! signal; the monitor debounces it, because many drives momentarily report
//! an empty tray right after a tray-close before the disc has spun up. A
//! single empty reading is therefore not trusted: the wait ends on the
//! second empty reading, or immediately on a loaded one.
//!
//! The surrounding application owns the polling loop (query the device,
//! sleep, repeat) and feeds each reading into `step`; the decision which
//! reading ends the wait lives here.

use vstd::prelude::*;

verus! {

/// The physical state of a drive, as one status query reports it.
#[derive(Clone, Copy, PartialEq, Eq, Structural, Debug)]
pub enum DriveState {
    /// The tray or similar mechanism is open.
    TrayOpen,
    /// The tray is closed but the drive is still settling and not readable.
    NotReady,
    /// The tray is closed and no disc is present.
    Empty,
    /// A disc is loaded and readable.
    Loaded,
}

/// The monitor's state across one wait-for-disc cycle: whether an empty
/// reading has already been observed this cycle.
#[derive(Clone, Copy, PartialEq, Eq, Structural, Debug)]
pub struct MonitorState {
    pub seen_empty: bool,
}

impl MonitorState {
    /// The state at the start of a wait cycle: no empty reading seen yet.
    pub fn start() -> (s: MonitorState)
        ensures
            s.seen_empty == false,
    {
        MonitorState { seen_empty: false }
    }
}

/// One step of the debounced state machine: from the current monitor state
/// and a fresh status reading to the next monitor state and, when the wait
/// ends, the reading that ends it.
pub open spec fn step_spec(state: MonitorState, status: DriveState) -> (MonitorState, Option<
    DriveState,
>) {
    match status {
        DriveState::TrayOpen => (state, None),
        DriveState::NotReady => (state, None),
        DriveState::Empty => if state.seen_empty {
            (state, Some(DriveState::Empty))
        } else {
            (MonitorState { seen_empty: true }, None)
        },
        DriveState::Loaded => (state, Some(DriveState::Loaded)),
    }
}

/// Advance the monitor by one status reading. The wait ends (`r.1` is
/// `Some`) exactly on a loaded reading or on a second empty reading;
/// tray-open and not-ready readings change nothing.
pub fn step(state: MonitorState, status: DriveState) -> (r: (MonitorState, Option<DriveState>))
    ensures
        r == step_spec(state, status),
{
    match status {
        DriveState::TrayOpen => (state, None),
        DriveState::NotReady => (state, None),
        DriveState::Empty => if state.seen_empty {
            (state, Some(DriveState::Empty))
        } else {
            (MonitorState { seen_empty: true }, None)
        },
        DriveState::Loaded => (state, Some(DriveState::Loaded)),
    }
}

/// The outcome of running the state machine over a sequence of readings,
/// starting from `state`: the reading that ends the wait, or `None` when
/// the sequence is exhausted with the wait still pending.
pub open spec fn wait_outcome(readings: Seq<DriveState>, state: MonitorState) -> Option<DriveState>
    decreases readings.len(),
{
    if readings.len() == 0 {
        None
    } else {
        let r = step_spec(state, readings[0]);
        if r.1 is Some {
            r.1
        } else {
            wait_outcome(readings.drop_first(), r.0)
        }
    }
}

/// Run the state machine over a finite sequence of readings, from the
/// start of a wait cycle.
pub fn wait_for_tray(readings: &Vec<DriveState>) -> (r: Option<DriveState>)
    ensures
        r == wait_outcome(readings@, MonitorState { seen_empty: false }),
{
    let mut state = MonitorState::start();
    let mut i: usize = 0;
    proof {
        assert(readings@.subrange(0, readings@.len() as int) =~= readings@);
    }
    while i < readings.len()
        invariant
            i <= readings@.len(),
            wait_outcome(readings@, MonitorState { seen_empty: false }) == wait_outcome(
                readings@.subrange(i as int, readings@.len() as int),
                state,
            ),
        decreases readings@.len() - i,
    {
        let ghost rest = readings@.subrange(i as int, readings@.len() as int);
        let (next, done) = step(state, readings[i]);
        proof {
            assert(rest[0] == readings@[i as int]);
            assert(rest.drop_first() =~= readings@.subrange(i + 1, readings@.len() as int));
        }
        if let Some(outcome) = done {
            return Some(outcome);
        }
        state = next;
        i = i + 1;
    }
    proof {
        assert(readings@.subrange(readings@.len() as int, readings@.len() as int).len() == 0);
    }
    None
}

/// The wait only ever ends with an empty or a loaded reading: a tray-open
/// or not-ready reading never ends it, from any starting state.
pub proof fn lemma_wait_ends_settled(readings: Seq<DriveState>, state: MonitorState)
    ensures
        match wait_outcome(readings, state) {
            Some(d) => d == DriveState::Empty || d == DriveState::Loaded,
            None => true,
        },
    decreases readings.len(),
{
    if readings.len() > 0 {
        let r = step_spec(state, readings[0]);
        if r.1 is None {
            lemma_wait_ends_settled(readings.drop_first(), r.0);
        }
    }
}

/// Debounce law: a wait whose readings hold no loaded reading and fewer
/// than two empty readings does not end.
pub proof fn lemma_wait_debounces(readings: Seq<DriveState>)
    requires
        forall|j: int| 0 <= j < readings.len() ==> readings[j] != DriveState::Loaded,
        readings.filter(|d: DriveState| d == DriveState::Empty).len() < 2,
    ensures
        wait_outcome(readings, MonitorState { seen_empty: false }) is None,
{
    lemma_wait_pending(readings, MonitorState { seen_empty: false });
}

/// Helper for the debounce law: a loaded-free sequence whose empty
/// readings, counting one already seen by the monitor, stay under two
/// leaves the wait pending.
proof fn lemma_wait_pending(readings: Seq<DriveState>, state: MonitorState)
    requires
        forall|j: int| 0 <= j < readings.len() ==> readings[j] != DriveState::Loaded,
        readings.filter(|d: DriveState| d == DriveState::Empty).len() + (if state.seen_empty {
            1int
        } else {
            0int
        }) < 2,
    ensures
        wait_outcome(readings, state) is None,
    decreases readings.len(),
{
    reveal(Seq::filter);
    if readings.len() > 0 {
        let first = readings[0];
        let rest = readings.drop_first();
        lemma_filter_drop_first(readings, |d: DriveState| d == DriveState::Empty);
        let r = step_spec(state, first);
        assert(r.1 is None);
        lemma_wait_pending(rest, r.0);
    }
}

/// Filtering a non-empty sequence counts its first element and the rest.
proof fn lemma_filter_drop_first<A>(s: Seq<A>, pred: spec_fn(A) -> bool)
    requires
        s.len() > 0,
    ensures
        s.filter(pred).len() == s.drop_first().filter(pred).len() + (if pred(s[0]) {
            1int
        } else {
            0int
        }),
    decreases s.len(),
{
    reveal(Seq::filter);
    if s.len() == 1 {
        assert(s.drop_first() =~= Seq::<A>::empty());
        assert(s.drop_last() =~= Seq::<A>::empty());
        assert(s[0] == s.last());
    } else {
        lemma_filter_drop_first(s.drop_last(), pred);
        assert(s.drop_last().drop_first() =~= s.drop_first().drop_last());
        assert(s.drop_last()[0] == s[0]);
        assert(s.drop_first().last() == s.last());
    }
}

/// The decision whether to eject the tray on startup: keep it shut when the
/// first status query already reports an open tray or a loaded disc, eject
/// otherwise (including when the query failed, `None`).
pub fn eject_on_startup(status: Option<DriveState>) -> (eject: bool)
    ensures
        eject == !(status == Some(DriveState::TrayOpen) || status == Some(DriveState::Loaded)),
{
    match status {
        Some(DriveState::TrayOpen) => false,
        Some(DriveState::Loaded) => false,
        _ => true,
    }
}

} // verus!
