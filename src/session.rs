use vstd::prelude::*;

verus! {

/// Where a run stands.
#[derive(Clone, Copy, Debug, PartialEq, Eq, Structural)]
pub enum Phase {
    /// The child was started and nobody waits for it yet.
    Spawned,
    /// The child's exit races the copying of both streams.
    Racing,
    /// The race is over; the child's exit status is awaited. The direction
    /// is that of a copy that failed in the race, if one did.
    Reaping(Option<Direction>),
    /// The run has its result. Nothing changes it any more.
    Completed,
}

/// A direction of byte copying between the caller and the child.
#[derive(Clone, Copy, Debug, PartialEq, Eq, Structural)]
pub enum Direction {
    /// From the caller's input stream to the child's standard input.
    Fill,
    /// From the child's standard output to the caller's output stream.
    Drain,
}

/// Why a run failed.
#[derive(Clone, Copy, Debug, PartialEq, Eq, Structural)]
pub enum WaitError {
    /// Copying bytes in the given direction failed.
    StreamCopy(Direction),
    /// The child ended without success: its exit code, or `None` when a
    /// signal ended it.
    NonZeroExit(Option<i32>),
    /// The child's exit status could not be obtained.
    WaitFailed,
}

/// What the supervisor of a run observed.
#[derive(Clone, Copy, Debug, PartialEq, Eq, Structural)]
pub enum WaitEvent {
    /// The caller started waiting for the run.
    Begin,
    /// The child exited before both copy tasks were done.
    ChildExited,
    /// Both copy tasks ended before the child exited; each says whether it
    /// succeeded.
    CopiesFinished { drain_ok: bool, fill_ok: bool },
    /// The child's authoritative exit status: its code, or `None` when a
    /// signal ended it.
    Reaped { code: Option<i32> },
    /// Waiting for the child's exit status failed.
    ReapFailed,
}

/// What the supervisor of a run does next.
#[derive(Clone, Copy, Debug, PartialEq, Eq, Structural)]
pub enum WaitAction {
    /// Race the child's exit against the drain and fill tasks together.
    Race,
    /// Wait for the child's exit status.
    Reap,
    /// Report that the run succeeded.
    Succeed,
    /// Report that the run failed.
    Fail(WaitError),
    /// Nothing: the event has no bearing on the run as it stands.
    Ignore,
}

/// The phase and the action that follow `event` in phase `phase`.
pub open spec fn next(phase: Phase, event: WaitEvent) -> (Phase, WaitAction) {
    match (phase, event) {
        (Phase::Spawned, WaitEvent::Begin) => (Phase::Racing, WaitAction::Race),
        (Phase::Racing, WaitEvent::ChildExited) => (Phase::Reaping(None), WaitAction::Reap),
        (Phase::Racing, WaitEvent::CopiesFinished { drain_ok, fill_ok }) => {
            if !drain_ok {
                (Phase::Reaping(Some(Direction::Drain)), WaitAction::Reap)
            } else if !fill_ok {
                (Phase::Reaping(Some(Direction::Fill)), WaitAction::Reap)
            } else {
                (Phase::Reaping(None), WaitAction::Reap)
            }
        },
        (Phase::Reaping(Some(dir)), WaitEvent::Reaped { .. }) => (
            Phase::Completed,
            WaitAction::Fail(WaitError::StreamCopy(dir)),
        ),
        (Phase::Reaping(Some(dir)), WaitEvent::ReapFailed) => (
            Phase::Completed,
            WaitAction::Fail(WaitError::StreamCopy(dir)),
        ),
        (Phase::Reaping(None), WaitEvent::Reaped { code }) => {
            if code == Some(0i32) {
                (Phase::Completed, WaitAction::Succeed)
            } else {
                (Phase::Completed, WaitAction::Fail(WaitError::NonZeroExit(code)))
            }
        },
        (Phase::Reaping(None), WaitEvent::ReapFailed) => (
            Phase::Completed,
            WaitAction::Fail(WaitError::WaitFailed),
        ),
        _ => (phase, WaitAction::Ignore),
    }
}

/// Whether an action reports the result of the run.
pub open spec fn reports(a: WaitAction) -> bool {
    a is Succeed || a is Fail
}

/// The phase reached from `phase` through `events`, and the actions taken.
pub open spec fn run(phase: Phase, events: Seq<WaitEvent>) -> (Phase, Seq<WaitAction>)
    decreases events.len(),
{
    if events.len() == 0 {
        (phase, Seq::empty())
    } else {
        let prev = run(phase, events.drop_last());
        let (p, a) = next(prev.0, events.last());
        (p, prev.1.push(a))
    }
}

/// How many of `actions` report the result of the run.
pub open spec fn report_count(actions: Seq<WaitAction>) -> nat
    decreases actions.len(),
{
    if actions.len() == 0 {
        0
    } else {
        report_count(actions.drop_last()) + if reports(actions.last()) {
            1nat
        } else {
            0nat
        }
    }
}

/// The decisions of one run: it is started, races the child's exit against
/// the copying of both streams, reaps the child, and reports one result.
pub struct Session {
    phase: Phase,
}

impl Session {
    /// Where the run stands.
    pub closed spec fn phase(&self) -> Phase {
        self.phase
    }

    /// The session of a child that was just started.
    pub fn new() -> (r: Session)
        ensures
            r.phase() == Phase::Spawned,
    {
        Session { phase: Phase::Spawned }
    }

    /// Whether the run has its result.
    pub fn is_completed(&self) -> (r: bool)
        ensures
            r == (self.phase() == Phase::Completed),
    {
        match self.phase {
            Phase::Completed => true,
            _ => false,
        }
    }

    /// Takes in what the supervisor observed and says what it does next.
    pub fn step(&mut self, event: WaitEvent) -> (a: WaitAction)
        ensures
            (final(self).phase(), a) == next(old(self).phase(), event),
    {
        let (p, a) = match (self.phase, event) {
            (Phase::Spawned, WaitEvent::Begin) => (Phase::Racing, WaitAction::Race),
            (Phase::Racing, WaitEvent::ChildExited) => (Phase::Reaping(None), WaitAction::Reap),
            (Phase::Racing, WaitEvent::CopiesFinished { drain_ok, fill_ok }) => {
                if !drain_ok {
                    (Phase::Reaping(Some(Direction::Drain)), WaitAction::Reap)
                } else if !fill_ok {
                    (Phase::Reaping(Some(Direction::Fill)), WaitAction::Reap)
                } else {
                    (Phase::Reaping(None), WaitAction::Reap)
                }
            },
            (Phase::Reaping(Some(dir)), WaitEvent::Reaped { .. })
            | (Phase::Reaping(Some(dir)), WaitEvent::ReapFailed) => (
                Phase::Completed,
                WaitAction::Fail(WaitError::StreamCopy(dir)),
            ),
            (Phase::Reaping(None), WaitEvent::Reaped { code }) => {
                match code {
                    Some(0i32) => (Phase::Completed, WaitAction::Succeed),
                    _ => (Phase::Completed, WaitAction::Fail(WaitError::NonZeroExit(code))),
                }
            },
            (Phase::Reaping(None), WaitEvent::ReapFailed) => (
                Phase::Completed,
                WaitAction::Fail(WaitError::WaitFailed),
            ),
            (p, _) => (p, WaitAction::Ignore),
        };
        self.phase = p;
        a
    }
}

/// Every result comes after a reap: a run is reported only on the child's
/// exit status, or on the failure to obtain it, while the race is over.
pub proof fn lemma_reported_after_reap(phase: Phase, event: WaitEvent)
    requires
        reports(next(phase, event).1),
    ensures
        phase is Reaping,
        event is Reaped || event is ReapFailed,
{
}

/// A copy that fails in the race is reported, and only once the child has
/// been reaped, whatever its exit status.
pub proof fn lemma_copy_failure_reaps(drain_ok: bool, fill_ok: bool, reaped: WaitEvent)
    requires
        !drain_ok || !fill_ok,
        reaped is Reaped || reaped is ReapFailed,
    ensures
        ({
            let dir = if !drain_ok {
                Direction::Drain
            } else {
                Direction::Fill
            };
            let (p, a) = next(Phase::Racing, WaitEvent::CopiesFinished { drain_ok, fill_ok });
            &&& a == WaitAction::Reap
            &&& p == Phase::Reaping(Some(dir))
            &&& next(p, reaped) == (
                Phase::Completed,
                WaitAction::Fail(WaitError::StreamCopy(dir)),
            )
        }),
{
}

/// A completed run stays completed, and no event draws any action from it.
pub proof fn lemma_completed_is_final(event: WaitEvent)
    ensures
        next(Phase::Completed, event) == (Phase::Completed, WaitAction::Ignore),
{
}

/// However the events of a run come, its result is reported at most once:
/// exactly once when it ends completed, and never before.
pub proof fn lemma_reported_once(events: Seq<WaitEvent>)
    ensures
        report_count(run(Phase::Spawned, events).1) == if run(Phase::Spawned, events).0
            == Phase::Completed {
            1nat
        } else {
            0nat
        },
    decreases events.len(),
{
    if events.len() > 0 {
        lemma_reported_once(events.drop_last());
        let prev = run(Phase::Spawned, events.drop_last());
        let (p, a) = next(prev.0, events.last());
        assert(prev.1.push(a).drop_last() =~= prev.1);
    }
}

/// Once the race is over without a failed copy, a zero exit status makes the
/// run succeed, whether the child's exit or the copying won the race.
pub proof fn lemma_clean_exit_succeeds(won_by_exit: bool)
    ensures
        ({
            let race_end = if won_by_exit {
                WaitEvent::ChildExited
            } else {
                WaitEvent::CopiesFinished { drain_ok: true, fill_ok: true }
            };
            run(
                Phase::Spawned,
                seq![WaitEvent::Begin, race_end, WaitEvent::Reaped { code: Some(0i32) }],
            ) == (Phase::Completed, seq![WaitAction::Race, WaitAction::Reap, WaitAction::Succeed])
        }),
{
    let race_end = if won_by_exit {
        WaitEvent::ChildExited
    } else {
        WaitEvent::CopiesFinished { drain_ok: true, fill_ok: true }
    };
    let evs = seq![WaitEvent::Begin, race_end, WaitEvent::Reaped { code: Some(0i32) }];
    let e1 = seq![WaitEvent::Begin];
    let e2 = seq![WaitEvent::Begin, race_end];
    assert(e1.drop_last() =~= Seq::<WaitEvent>::empty());
    assert(e2.drop_last() =~= e1);
    assert(evs.drop_last() =~= e2);
    let r0 = run(Phase::Spawned, Seq::<WaitEvent>::empty());
    assert(r0.0 == Phase::Spawned && r0.1 == Seq::<WaitAction>::empty());
    assert(e1.last() == WaitEvent::Begin);
    let r1 = run(Phase::Spawned, e1);
    assert(r1.0 == Phase::Racing);
    assert(r1.1 =~= seq![WaitAction::Race]);
    assert(e2.last() == race_end);
    let r2 = run(Phase::Spawned, e2);
    assert(r2.0 == Phase::Reaping(None));
    assert(r2.1 =~= seq![WaitAction::Race, WaitAction::Reap]);
    assert(evs.last() == WaitEvent::Reaped { code: Some(0i32) });
    assert(run(Phase::Spawned, evs).1 =~= seq![
        WaitAction::Race,
        WaitAction::Reap,
        WaitAction::Succeed,
    ]);
}

} // verus!
