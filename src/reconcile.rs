use vstd::prelude::*;

verus! {

/// Where the reconciliation loop stands.
#[derive(Debug, Clone, Copy, PartialEq, Eq, Structural)]
pub enum Phase {
    /// Watching for changes; no reconciliation pending.
    Idle,
    /// A change was seen and the debounce timer is armed.
    Debouncing,
    /// The configuration file is being written from the current snapshot.
    Writing,
    /// The daemon is being told to reload.
    Signaling,
    /// Writing the configuration failed; the loop has ended.
    Stopped,
}

/// What the loop learns from the outside.
#[derive(Debug, Clone, Copy, PartialEq, Eq, Structural)]
pub enum Event {
    /// The record store reported a change (the initial listing counts as one).
    Changed,
    /// The debounce timer expired.
    DelayElapsed,
    /// The configuration file was replaced.
    Written,
    /// Writing the configuration file failed.
    WriteFailed,
    /// The reload signal was delivered.
    ReloadSent,
    /// Reading the process id or delivering the signal failed.
    ReloadFailed,
}

/// What the loop asks its driver to do next.
#[derive(Debug, Clone, Copy, PartialEq, Eq, Structural)]
pub enum Action {
    /// Keep waiting for the next event.
    Wait,
    /// Arm the debounce timer for this many seconds.
    StartTimer(u64),
    /// Read the current snapshot, render it and replace the file atomically.
    WriteConfig,
    /// Read the daemon's process id and send it the reload signal.
    SendReload,
    /// Report that the reload signal could not be sent, then keep waiting.
    ReportReloadFailure,
    /// Report the write failure and end the process.
    Exit,
}

/// One step of the loop. Further changes while the timer is armed are
/// absorbed without re-arming it, so a change takes effect at most one
/// delay after the first change of its window. Events that cannot arrive in
/// a phase leave it unchanged.
pub open spec fn transition(phase: Phase, skip_reload: bool, delay: u64, ev: Event) -> (
    Phase,
    Action,
) {
    match (phase, ev) {
        (Phase::Idle, Event::Changed) => (Phase::Debouncing, Action::StartTimer(delay)),
        (Phase::Debouncing, Event::DelayElapsed) => (Phase::Writing, Action::WriteConfig),
        (Phase::Writing, Event::Written) => if skip_reload {
            (Phase::Idle, Action::Wait)
        } else {
            (Phase::Signaling, Action::SendReload)
        },
        (Phase::Writing, Event::WriteFailed) => (Phase::Stopped, Action::Exit),
        (Phase::Signaling, Event::ReloadSent) => (Phase::Idle, Action::Wait),
        (Phase::Signaling, Event::ReloadFailed) => (Phase::Idle, Action::ReportReloadFailure),
        (Phase::Stopped, _) => (Phase::Stopped, Action::Exit),
        (p, _) => (p, Action::Wait),
    }
}

/// The phase reached and the actions asked for, feeding `evs` in order.
pub open spec fn run(phase: Phase, skip_reload: bool, delay: u64, evs: Seq<Event>) -> (
    Phase,
    Seq<Action>,
)
    decreases evs.len(),
{
    if evs.len() == 0 {
        (phase, Seq::empty())
    } else {
        let (p, acts) = run(phase, skip_reload, delay, evs.drop_last());
        let (q, a) = transition(p, skip_reload, delay, evs.last());
        (q, acts.push(a))
    }
}

/// How many reconciliation cycles the actions start.
pub open spec fn writes(acts: Seq<Action>) -> nat
    decreases acts.len(),
{
    if acts.len() == 0 {
        0
    } else {
        writes(acts.drop_last()) + if acts.last() == Action::WriteConfig {
            1nat
        } else {
            0nat
        }
    }
}

pub open spec fn all_changes(evs: Seq<Event>) -> bool {
    forall|i: int| 0 <= i < evs.len() ==> evs[i] == Event::Changed
}

pub open spec fn no_changes(evs: Seq<Event>) -> bool {
    forall|i: int| 0 <= i < evs.len() ==> evs[i] != Event::Changed
}

/// The debounced reconciliation loop: its phase, the debounce delay in
/// seconds and whether the reload signal is skipped.
pub struct ReconcileLoop {
    pub phase: Phase,
    pub reload_delay: u64,
    pub skip_reload: bool,
}

impl ReconcileLoop {
    /// A loop that is idle, waiting for the store's initial listing.
    pub fn new(reload_delay: u64, skip_reload: bool) -> (r: ReconcileLoop)
        ensures
            r.phase == Phase::Idle,
            r.reload_delay == reload_delay,
            r.skip_reload == skip_reload,
    {
        ReconcileLoop { phase: Phase::Idle, reload_delay, skip_reload }
    }

    /// Takes one event and says what to do next.
    pub fn step(&mut self, ev: Event) -> (a: Action)
        ensures
            (final(self).phase, a) == transition(
                old(self).phase,
                old(self).skip_reload,
                old(self).reload_delay,
                ev,
            ),
            final(self).reload_delay == old(self).reload_delay,
            final(self).skip_reload == old(self).skip_reload,
    {
        let (next, action) = match (self.phase, ev) {
            (Phase::Idle, Event::Changed) => (Phase::Debouncing, Action::StartTimer(
                self.reload_delay,
            )),
            (Phase::Debouncing, Event::DelayElapsed) => (Phase::Writing, Action::WriteConfig),
            (Phase::Writing, Event::Written) => if self.skip_reload {
                (Phase::Idle, Action::Wait)
            } else {
                (Phase::Signaling, Action::SendReload)
            },
            (Phase::Writing, Event::WriteFailed) => (Phase::Stopped, Action::Exit),
            (Phase::Signaling, Event::ReloadSent) => (Phase::Idle, Action::Wait),
            (Phase::Signaling, Event::ReloadFailed) => (
                Phase::Idle,
                Action::ReportReloadFailure,
            ),
            (Phase::Stopped, _) => (Phase::Stopped, Action::Exit),
            (p, _) => (p, Action::Wait),
        };
        self.phase = next;
        action
    }
}

proof fn lemma_writes_push(acts: Seq<Action>, a: Action)
    ensures
        writes(acts.push(a)) == writes(acts) + if a == Action::WriteConfig {
            1nat
        } else {
            0nat
        },
{
    assert(acts.push(a).drop_last() =~= acts);
}

proof fn lemma_burst(skip_reload: bool, delay: u64, evs: Seq<Event>)
    requires
        evs.len() >= 1,
        all_changes(evs),
    ensures
        run(Phase::Idle, skip_reload, delay, evs).0 == Phase::Debouncing,
        run(Phase::Idle, skip_reload, delay, evs).1.len() == evs.len(),
        writes(run(Phase::Idle, skip_reload, delay, evs).1) == 0,
    decreases evs.len(),
{
    let rest = evs.drop_last();
    if rest.len() == 0 {
        assert(run(Phase::Idle, skip_reload, delay, rest).1 =~= Seq::<Action>::empty());
    } else {
        assert(all_changes(rest)) by {
            assert forall|i: int| 0 <= i < rest.len() implies rest[i] == Event::Changed by {
                assert(rest[i] == evs[i]);
            }
        }
        lemma_burst(skip_reload, delay, rest);
    }
    let acts = run(Phase::Idle, skip_reload, delay, rest).1;
    let a = transition(run(Phase::Idle, skip_reload, delay, rest).0, skip_reload, delay, evs.last()).1;
    lemma_writes_push(acts, a);
}

/// A burst of any number of changes within one debounce window leads to
/// exactly one reconciliation, started when the timer expires: the snapshot
/// is read at expiry, not at the first change.
pub proof fn lemma_debounce_one_write(skip_reload: bool, delay: u64, burst: Seq<Event>)
    requires
        burst.len() >= 1,
        all_changes(burst),
    ensures
        ({
            let (p, acts) = run(Phase::Idle, skip_reload, delay, burst.push(Event::DelayElapsed));
            &&& p == Phase::Writing
            &&& writes(acts) == 1
            &&& acts.last() == Action::WriteConfig
            &&& writes(acts.drop_last()) == 0
        }),
{
    let evs = burst.push(Event::DelayElapsed);
    assert(evs.drop_last() =~= burst);
    lemma_burst(skip_reload, delay, burst);
    let acts = run(Phase::Idle, skip_reload, delay, burst).1;
    lemma_writes_push(acts, Action::WriteConfig);
    assert(run(Phase::Idle, skip_reload, delay, evs).1.drop_last() =~= acts);
}

proof fn lemma_quiet(skip_reload: bool, delay: u64, evs: Seq<Event>)
    requires
        no_changes(evs),
    ensures
        run(Phase::Idle, skip_reload, delay, evs).0 == Phase::Idle,
        writes(run(Phase::Idle, skip_reload, delay, evs).1) == 0,
    decreases evs.len(),
{
    if evs.len() > 0 {
        let rest = evs.drop_last();
        assert(no_changes(rest)) by {
            assert forall|i: int| 0 <= i < rest.len() implies rest[i] != Event::Changed by {
                assert(rest[i] == evs[i]);
            }
        }
        lemma_quiet(skip_reload, delay, rest);
        let acts = run(Phase::Idle, skip_reload, delay, rest).1;
        lemma_writes_push(acts, Action::Wait);
    }
}

/// The initial listing alone, with no change after it, leads to exactly one
/// reconciliation; once that cycle has completed, events that are not
/// changes start no other.
pub proof fn lemma_startup_one_write(skip_reload: bool, delay: u64, later: Seq<Event>)
    requires
        no_changes(later),
    ensures
        ({
            let reload = if skip_reload {
                Seq::<Event>::empty()
            } else {
                seq![Event::ReloadSent]
            };
            let startup = seq![Event::Changed, Event::DelayElapsed, Event::Written] + reload;
            let (p, acts) = run(Phase::Idle, skip_reload, delay, startup);
            &&& p == Phase::Idle
            &&& writes(acts) == 1
            &&& run(p, skip_reload, delay, later).0 == Phase::Idle
            &&& writes(run(p, skip_reload, delay, later).1) == 0
        }),
{
    let reload = if skip_reload {
        Seq::<Event>::empty()
    } else {
        seq![Event::ReloadSent]
    };
    let s1 = seq![Event::Changed];
    let s2 = seq![Event::Changed, Event::DelayElapsed];
    let s3 = seq![Event::Changed, Event::DelayElapsed, Event::Written];
    let startup = s3 + reload;
    assert(s1.drop_last() =~= Seq::<Event>::empty());
    assert(s2.drop_last() =~= s1);
    assert(s3.drop_last() =~= s2);
    let e = Seq::<Event>::empty();
    assert(run(Phase::Idle, skip_reload, delay, e) == (Phase::Idle, Seq::<Action>::empty()));
    assert(run(Phase::Idle, skip_reload, delay, s1) == (
        Phase::Debouncing,
        Seq::<Action>::empty().push(Action::StartTimer(delay)),
    ));
    let a1 = run(Phase::Idle, skip_reload, delay, s1).1;
    let a2 = run(Phase::Idle, skip_reload, delay, s2).1;
    let a3 = run(Phase::Idle, skip_reload, delay, s3).1;
    assert(a1 =~= seq![Action::StartTimer(delay)]);
    lemma_writes_push(Seq::empty(), Action::StartTimer(delay));
    assert(Seq::<Action>::empty().push(Action::StartTimer(delay)) =~= a1);
    lemma_writes_push(a1, Action::WriteConfig);
    lemma_writes_push(a2, transition(Phase::Writing, skip_reload, delay, Event::Written).1);
    if skip_reload {
        assert(startup =~= s3);
    } else {
        assert(startup.drop_last() =~= s3);
        lemma_writes_push(a3, Action::Wait);
    }
    lemma_quiet(skip_reload, delay, later);
}

/// When the reload signal cannot be sent, the configuration has already been
/// written in the same cycle, the failure is reported, and the loop goes on
/// watching instead of stopping.
pub proof fn lemma_reload_failure_isolated(delay: u64)
    ensures
        run(
            Phase::Idle,
            false,
            delay,
            seq![Event::Changed, Event::DelayElapsed, Event::Written, Event::ReloadFailed],
        ) == (
            Phase::Idle,
            seq![
                Action::StartTimer(delay),
                Action::WriteConfig,
                Action::SendReload,
                Action::ReportReloadFailure,
            ],
        ),
        forall|skip_reload: bool|
            #[trigger] transition(Phase::Signaling, skip_reload, delay, Event::ReloadFailed) == (
                Phase::Idle,
                Action::ReportReloadFailure,
            ),
{
    let s4 = seq![Event::Changed, Event::DelayElapsed, Event::Written, Event::ReloadFailed];
    let s3 = seq![Event::Changed, Event::DelayElapsed, Event::Written];
    let s2 = seq![Event::Changed, Event::DelayElapsed];
    let s1 = seq![Event::Changed];
    assert(s4.drop_last() =~= s3);
    assert(s3.drop_last() =~= s2);
    assert(s2.drop_last() =~= s1);
    assert(s1.drop_last() =~= Seq::<Event>::empty());
    let e = Seq::<Action>::empty();
    assert(run(Phase::Idle, false, delay, Seq::<Event>::empty()) == (Phase::Idle, e));
    let a1 = e.push(Action::StartTimer(delay));
    assert(run(Phase::Idle, false, delay, s1) == (Phase::Debouncing, a1));
    let a2 = a1.push(Action::WriteConfig);
    assert(run(Phase::Idle, false, delay, s2) == (Phase::Writing, a2));
    let a3 = a2.push(Action::SendReload);
    assert(run(Phase::Idle, false, delay, s3) == (Phase::Signaling, a3));
    assert(run(Phase::Idle, false, delay, s4) == (Phase::Idle, a3.push(Action::ReportReloadFailure)));
    assert(a3.push(Action::ReportReloadFailure) =~= seq![
        Action::StartTimer(delay),
        Action::WriteConfig,
        Action::SendReload,
        Action::ReportReloadFailure,
    ]);
}

} // verus!
