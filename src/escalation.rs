use vstd::prelude::*;

use crate::process::KillError;
use crate::signal::Signal;

verus! {

/// How a run treats the selected processes.
#[derive(Debug, Clone, Copy)]
pub struct EscalationPolicy {
    /// Sent to every selected process first.
    pub terminate_signal: Signal,
    /// Sent to the processes still alive when the wait is over.
    pub kill_signal: Signal,
    /// How long to wait for the processes to exit; `None` or zero means not to wait.
    pub wait_millis: Option<u64>,
    /// Whether to send the kill signal once the wait is over.
    pub force_kill: bool,
    /// Only report what would be sent.
    pub dry_run: bool,
}

/// Where a run stands.
#[derive(Debug, Clone, Copy, PartialEq, Eq, Structural)]
pub enum Stage {
    /// Nothing has happened yet.
    Selected,
    /// The terminate signal is being sent.
    Signaled,
    /// Waiting: the elapsed time is to be read.
    Waiting,
    /// Waiting: the watched processes are being checked.
    Polling,
    /// The kill signal is being sent.
    Escalated,
    /// The run is over.
    Done,
}

/// What the driver reports back to the engine.
#[derive(Debug)]
pub enum Event {
    /// The run starts.
    Begin,
    /// The outcome of each send that `Command::Send` asked for, in its order.
    Sent { outcomes: Vec<Result<(), KillError>> },
    /// The time since the wait began.
    Elapsed { millis: u64 },
    /// For each process that `Command::Poll` listed, in its order, whether it is still alive.
    Alive { alive: Vec<bool> },
}

/// What the engine asks the driver to do. Processes are named by their
/// position in the selected list.
#[derive(Debug)]
pub enum Command {
    /// Report that `signal` would be sent to these processes; the run is over and succeeded.
    ReportDryRun { processes: Vec<usize>, signal: Signal },
    /// Send `signal` to each of these processes, in order, and answer with `Event::Sent`.
    Send { processes: Vec<usize>, signal: Signal },
    /// Answer with `Event::Elapsed`.
    ReadClock,
    /// Sleep one polling interval, then check each of these processes and answer with `Event::Alive`.
    Poll { processes: Vec<usize> },
    /// The run is over; `still_alive` lists the processes left running after a timeout.
    Finish { success: bool, still_alive: Vec<usize> },
}

pub ghost enum EventView {
    Begin,
    Sent { outcomes: Seq<Result<(), KillError>> },
    Elapsed { millis: u64 },
    Alive { alive: Seq<bool> },
}

pub ghost enum CommandView {
    ReportDryRun { processes: Seq<usize>, signal: Signal },
    Send { processes: Seq<usize>, signal: Signal },
    ReadClock,
    Poll { processes: Seq<usize> },
    Finish { success: bool, still_alive: Seq<usize> },
}

impl View for Event {
    type V = EventView;

    open spec fn view(&self) -> EventView {
        match self {
            Event::Begin => EventView::Begin,
            Event::Sent { outcomes } => EventView::Sent { outcomes: outcomes@ },
            Event::Elapsed { millis } => EventView::Elapsed { millis: *millis },
            Event::Alive { alive } => EventView::Alive { alive: alive@ },
        }
    }
}

impl View for Command {
    type V = CommandView;

    open spec fn view(&self) -> CommandView {
        match self {
            Command::ReportDryRun { processes, signal } => CommandView::ReportDryRun {
                processes: processes@,
                signal: *signal,
            },
            Command::Send { processes, signal } => CommandView::Send { processes: processes@, signal: *signal },
            Command::ReadClock => CommandView::ReadClock,
            Command::Poll { processes } => CommandView::Poll { processes: processes@ },
            Command::Finish { success, still_alive } => CommandView::Finish {
                success: *success,
                still_alive: still_alive@,
            },
        }
    }
}

/// The state of a run: its stage, the processes still watched (ascending
/// positions in the selected list) and whether it has gone well so far.
pub ghost struct RunState {
    pub stage: Stage,
    pub watched: Seq<usize>,
    pub success: bool,
}

/// Whether the policy asks to wait for the processes to exit.
pub open spec fn waits(policy: EscalationPolicy) -> bool {
    match policy.wait_millis {
        Some(w) => w > 0,
        None => false,
    }
}

/// Whether `elapsed` milliseconds are at least the wait that the policy sets.
pub open spec fn wait_is_over(policy: EscalationPolicy, elapsed: u64) -> bool {
    match policy.wait_millis {
        Some(w) => elapsed >= w,
        None => true,
    }
}

/// Positions `0..count`.
pub open spec fn all_positions(count: usize) -> Seq<usize> {
    Seq::new(count as nat, |i: int| i as usize)
}

/// A send reached its goal: the signal was accepted, or the process was already gone.
pub open spec fn reached(outcome: Result<(), KillError>) -> bool {
    outcome is Ok || outcome == Err::<(), KillError>(KillError::DoesNotExist)
}

pub open spec fn all_reached(outcomes: Seq<Result<(), KillError>>) -> bool {
    forall|i: int| 0 <= i < outcomes.len() ==> reached(#[trigger] outcomes[i])
}

/// Whether each send was accepted by a process that is still there.
pub open spec fn accepted(outcomes: Seq<Result<(), KillError>>) -> Seq<bool> {
    outcomes.map_values(|o: Result<(), KillError>| o is Ok)
}

/// The elements of `items` whose flag in `keep` holds, in order.
pub open spec fn kept(items: Seq<usize>, keep: Seq<bool>) -> Seq<usize>
    decreases items.len(),
{
    if items.len() == 0 || keep.len() == 0 {
        Seq::empty()
    } else {
        let rest = kept(items.drop_last(), keep.drop_last());
        if keep.last() {
            rest.push(items.last())
        } else {
            rest
        }
    }
}

/// The state before the run begins.
pub open spec fn initial_state() -> RunState {
    RunState { stage: Stage::Selected, watched: Seq::empty(), success: true }
}

/// The state is sound for `count` selected processes: the watched positions
/// ascend and lie below `count`.
pub open spec fn sound(count: usize, s: RunState) -> bool {
    ascending_below(count, s.watched)
}

/// The positions ascend and lie below `count`.
pub open spec fn ascending_below(count: usize, positions: Seq<usize>) -> bool {
    &&& forall|i: int, j: int| 0 <= i < j < positions.len() ==> positions[i] < positions[j]
    &&& forall|i: int| 0 <= i < positions.len() ==> positions[i] < count
}

/// Whether the engine, in state `s`, expects `e` next.
pub open spec fn expects(s: RunState, e: EventView) -> bool {
    match e {
        EventView::Begin => s.stage == Stage::Selected,
        EventView::Sent { outcomes } => (s.stage == Stage::Signaled || s.stage == Stage::Escalated)
            && outcomes.len() == s.watched.len(),
        EventView::Elapsed { millis } => s.stage == Stage::Waiting,
        EventView::Alive { alive } => s.stage == Stage::Polling && alive.len() == s.watched.len(),
    }
}

pub open spec fn finish(watched: Seq<usize>, success: bool) -> (RunState, CommandView) {
    (
        RunState { stage: Stage::Done, watched, success },
        CommandView::Finish { success, still_alive: Seq::empty() },
    )
}

/// One step of a run: the next state and command, given the state and the
/// event that the driver reports.
pub open spec fn step(policy: EscalationPolicy, count: usize, s: RunState, e: EventView) -> (RunState, CommandView) {
    match e {
        EventView::Begin => if policy.dry_run {
            (
                RunState { stage: Stage::Done, watched: all_positions(count), success: true },
                CommandView::ReportDryRun { processes: all_positions(count), signal: policy.terminate_signal },
            )
        } else {
            (
                RunState { stage: Stage::Signaled, watched: all_positions(count), success: true },
                CommandView::Send { processes: all_positions(count), signal: policy.terminate_signal },
            )
        },
        EventView::Sent { outcomes } => {
            let success = s.success && all_reached(outcomes);
            if s.stage == Stage::Signaled {
                let watched = kept(s.watched, accepted(outcomes));
                if !waits(policy) || watched.len() == 0 {
                    finish(watched, success)
                } else {
                    (RunState { stage: Stage::Waiting, watched, success }, CommandView::ReadClock)
                }
            } else {
                finish(Seq::empty(), success)
            }
        },
        EventView::Elapsed { millis } => if !wait_is_over(policy, millis) {
            (RunState { stage: Stage::Polling, ..s }, CommandView::Poll { processes: s.watched })
        } else if policy.force_kill {
            (
                RunState { stage: Stage::Escalated, ..s },
                CommandView::Send { processes: s.watched, signal: policy.kill_signal },
            )
        } else {
            (
                RunState { stage: Stage::Done, watched: s.watched, success: false },
                CommandView::Finish { success: false, still_alive: s.watched },
            )
        },
        EventView::Alive { alive } => {
            let watched = kept(s.watched, alive);
            if watched.len() == 0 {
                finish(watched, s.success)
            } else {
                (RunState { stage: Stage::Waiting, watched, success: s.success }, CommandView::ReadClock)
            }
        },
    }
}

/// The engine that drives one run: it sends the terminate signal to every
/// selected process, waits for them to exit while the policy allows, and
/// then either sends the kill signal to the survivors or gives up on them.
/// Each step takes what the driver observed and says what to do next.
pub struct Escalation {
    policy: EscalationPolicy,
    count: usize,
    stage: Stage,
    watched: Vec<usize>,
    success: bool,
}

impl View for Escalation {
    type V = RunState;

    closed spec fn view(&self) -> RunState {
        RunState { stage: self.stage, watched: self.watched@, success: self.success }
    }
}

impl Escalation {
    pub closed spec fn policy(&self) -> EscalationPolicy {
        self.policy
    }

    pub closed spec fn count(&self) -> usize {
        self.count
    }

    #[verifier::type_invariant]
    closed spec fn inv(&self) -> bool {
        ascending_below(self.count, self.watched@)
    }

    /// The watched positions ascend and lie below the number of selected processes.
    pub open spec fn wf(&self) -> bool {
        sound(self.count(), self@)
    }

    /// A run over `count` selected processes under `policy`, not yet begun.
    pub fn new(policy: EscalationPolicy, count: usize) -> (r: Escalation)
        ensures
            r.policy() == policy,
            r.count() == count,
            r@ == initial_state(),
            r.wf(),
    {
        Escalation { policy, count, stage: Stage::Selected, watched: Vec::new(), success: true }
    }

    /// The stage the run is in.
    pub fn stage(&self) -> (r: Stage)
        ensures
            r == self@.stage,
    {
        self.stage
    }

    /// Whether the engine expects `event` next.
    pub fn expects(&self, event: &Event) -> (r: bool)
        ensures
            r == expects(self@, event@),
    {
        match event {
            Event::Begin => self.stage == Stage::Selected,
            Event::Sent { outcomes } => (self.stage == Stage::Signaled || self.stage == Stage::Escalated)
                && outcomes.len() == self.watched.len(),
            Event::Elapsed { .. } => self.stage == Stage::Waiting,
            Event::Alive { alive } => self.stage == Stage::Polling && alive.len() == self.watched.len(),
        }
    }

    /// Takes the next event and returns the next command.
    pub fn advance(&mut self, event: Event) -> (cmd: Command)
        requires
            expects(old(self)@, event@),
        ensures
            final(self).wf(),
            final(self).policy() == old(self).policy(),
            final(self).count() == old(self).count(),
            (final(self)@, cmd@) == step(old(self).policy(), old(self).count(), old(self)@, event@),
    {
        proof {
            use_type_invariant(&*self);
        }
        match event {
            Event::Begin => {
                self.watched = positions(self.count);
                assert(sound(self.count, RunState { stage: Stage::Done, watched: all_positions(self.count), success: true }));
                self.success = true;
                if self.policy.dry_run {
                    self.stage = Stage::Done;
                    Command::ReportDryRun { processes: positions(self.count), signal: self.policy.terminate_signal }
                } else {
                    self.stage = Stage::Signaled;
                    Command::Send { processes: positions(self.count), signal: self.policy.terminate_signal }
                }
            },
            Event::Sent { outcomes } => {
                self.success = self.success && all_reached_exec(&outcomes);
                if self.stage == Stage::Signaled {
                    let keep = accepted_exec(&outcomes);
                    proof {
                        lemma_kept_sound(self.count, self.watched@, keep@);
                    }
                    self.watched = keep_flagged(&self.watched, &keep);
                    if !waits_exec(&self.policy) || self.watched.len() == 0 {
                        self.stage = Stage::Done;
                        Command::Finish { success: self.success, still_alive: Vec::new() }
                    } else {
                        self.stage = Stage::Waiting;
                        Command::ReadClock
                    }
                } else {
                    self.watched = Vec::new();
                    self.stage = Stage::Done;
                    Command::Finish { success: self.success, still_alive: Vec::new() }
                }
            },
            Event::Elapsed { millis } => {
                let over = match self.policy.wait_millis {
                    Some(w) => millis >= w,
                    None => true,
                };
                if !over {
                    self.stage = Stage::Polling;
                    Command::Poll { processes: copy_positions(&self.watched) }
                } else if self.policy.force_kill {
                    self.stage = Stage::Escalated;
                    Command::Send { processes: copy_positions(&self.watched), signal: self.policy.kill_signal }
                } else {
                    self.stage = Stage::Done;
                    self.success = false;
                    Command::Finish { success: false, still_alive: copy_positions(&self.watched) }
                }
            },
            Event::Alive { alive } => {
                proof {
                    lemma_kept_sound(self.count, self.watched@, alive@);
                }
                self.watched = keep_flagged(&self.watched, &alive);
                if self.watched.len() == 0 {
                    self.stage = Stage::Done;
                    Command::Finish { success: self.success, still_alive: Vec::new() }
                } else {
                    self.stage = Stage::Waiting;
                    Command::ReadClock
                }
            },
        }
    }
}

fn waits_exec(policy: &EscalationPolicy) -> (r: bool)
    ensures
        r == waits(*policy),
{
    match policy.wait_millis {
        Some(w) => w > 0,
        None => false,
    }
}

fn positions(count: usize) -> (r: Vec<usize>)
    ensures
        r@ == all_positions(count),
{
    let mut r: Vec<usize> = Vec::new();
    let mut i: usize = 0;
    while i < count
        invariant
            i <= count,
            r@ == all_positions(i),
        decreases count - i,
    {
        r.push(i);
        assert(r@ =~= all_positions((i + 1) as usize));
        i = i + 1;
    }
    r
}

fn copy_positions(v: &Vec<usize>) -> (r: Vec<usize>)
    ensures
        r@ == v@,
{
    let mut r: Vec<usize> = Vec::new();
    let mut i: usize = 0;
    while i < v.len()
        invariant
            i <= v@.len(),
            r@ == v@.take(i as int),
        decreases v.len() - i,
    {
        r.push(v[i]);
        assert(r@ =~= v@.take(i + 1));
        i = i + 1;
    }
    assert(v@.take(i as int) =~= v@);
    r
}

fn is_reached(outcome: &Result<(), KillError>) -> (r: bool)
    ensures
        r == reached(*outcome),
{
    match outcome {
        Ok(()) => true,
        Err(KillError::DoesNotExist) => true,
        Err(_) => false,
    }
}

fn all_reached_exec(outcomes: &Vec<Result<(), KillError>>) -> (r: bool)
    ensures
        r == all_reached(outcomes@),
{
    let mut i: usize = 0;
    while i < outcomes.len()
        invariant
            i <= outcomes@.len(),
            forall|j: int| 0 <= j < i ==> reached(#[trigger] outcomes@[j]),
        decreases outcomes.len() - i,
    {
        if !is_reached(&outcomes[i]) {
            return false;
        }
        i = i + 1;
    }
    true
}

fn accepted_exec(outcomes: &Vec<Result<(), KillError>>) -> (r: Vec<bool>)
    ensures
        r@ == accepted(outcomes@),
{
    let mut r: Vec<bool> = Vec::new();
    let mut i: usize = 0;
    while i < outcomes.len()
        invariant
            i <= outcomes@.len(),
            r@ == accepted(outcomes@.take(i as int)),
        decreases outcomes.len() - i,
    {
        r.push(outcomes[i].is_ok());
        assert(r@ =~= accepted(outcomes@.take(i + 1)));
        i = i + 1;
    }
    assert(outcomes@.take(i as int) =~= outcomes@);
    r
}

proof fn lemma_kept_step(items: Seq<usize>, keep: Seq<bool>, i: int)
    requires
        0 <= i < items.len(),
        i < keep.len(),
    ensures
        kept(items.take(i + 1), keep.take(i + 1)) == if keep[i] {
            kept(items.take(i), keep.take(i)).push(items[i])
        } else {
            kept(items.take(i), keep.take(i))
        },
{
    assert(items.take(i + 1).drop_last() =~= items.take(i));
    assert(keep.take(i + 1).drop_last() =~= keep.take(i));
}

/// Every element that `kept` keeps comes from a flagged position.
proof fn lemma_kept_from_flagged(items: Seq<usize>, keep: Seq<bool>, x: usize)
    requires
        items.len() == keep.len(),
        kept(items, keep).contains(x),
    ensures
        exists|j: int| 0 <= j < items.len() && j < keep.len() && items[j] == x && keep[j],
    decreases items.len(),
{
    if items.len() > 0 && keep.len() > 0 {
        let rest = kept(items.drop_last(), keep.drop_last());
        if keep.last() && x == items.last() {
            assert(items[items.len() - 1] == x && keep[keep.len() - 1]);
        } else {
            if keep.last() {
                let k = choose|k: int| 0 <= k < kept(items, keep).len() && kept(items, keep)[k] == x;
                assert(k < rest.len());
                assert(rest[k] == x);
            }
            assert(rest.contains(x));
            lemma_kept_from_flagged(items.drop_last(), keep.drop_last(), x);
            let j = choose|j: int|
                0 <= j < items.drop_last().len() && j < keep.drop_last().len() && items.drop_last()[j] == x
                    && keep.drop_last()[j];
            assert(items[j] == x && keep[j]);
        }
    } else {
        assert(kept(items, keep).len() == 0);
    }
}

/// `kept` keeps ascending sequences ascending, and below any bound they had.
proof fn lemma_kept_sound(count: usize, items: Seq<usize>, keep: Seq<bool>)
    requires
        forall|i: int, j: int| 0 <= i < j < items.len() ==> items[i] < items[j],
        forall|i: int| 0 <= i < items.len() ==> items[i] < count,
    ensures
        forall|i: int, j: int| 0 <= i < j < kept(items, keep).len() ==> kept(items, keep)[i] < kept(items, keep)[j],
        forall|i: int| 0 <= i < kept(items, keep).len() ==> kept(items, keep)[i] < count,
        forall|i: int| 0 <= i < kept(items, keep).len() ==> items.contains(#[trigger] kept(items, keep)[i]),
    decreases items.len(),
{
    if items.len() > 0 && keep.len() > 0 {
        let rest = kept(items.drop_last(), keep.drop_last());
        lemma_kept_sound(count, items.drop_last(), keep.drop_last());
        assert forall|i: int| 0 <= i < rest.len() implies items.contains(#[trigger] rest[i]) by {
            let k = choose|k: int| 0 <= k < items.drop_last().len() && items.drop_last()[k] == rest[i];
            assert(items[k] == rest[i]);
        }
        if keep.last() {
            assert forall|i: int| 0 <= i < rest.len() implies rest[i] < items.last() by {
                let k = choose|k: int| 0 <= k < items.len() && items[k] == rest[i];
                if k == items.len() - 1 {
                    let m = choose|m: int| 0 <= m < items.drop_last().len() && items.drop_last()[m] == rest[i];
                    assert(items[m] == rest[i]);
                }
            }
            assert(items.contains(items.last())) by {
                assert(items[items.len() - 1] == items.last());
            }
        }
    }
}

fn keep_flagged(items: &Vec<usize>, keep: &Vec<bool>) -> (r: Vec<usize>)
    requires
        items@.len() == keep@.len(),
    ensures
        r@ == kept(items@, keep@),
{
    let mut r: Vec<usize> = Vec::new();
    let mut i: usize = 0;
    while i < items.len()
        invariant
            i <= items@.len() == keep@.len(),
            r@ == kept(items@.take(i as int), keep@.take(i as int)),
        decreases items.len() - i,
    {
        proof {
            lemma_kept_step(items@, keep@, i as int);
        }
        if keep[i] {
            r.push(items[i]);
        }
        i = i + 1;
    }
    assert(items@.take(i as int) =~= items@);
    assert(keep@.take(i as int) =~= keep@);
    r
}

/// A dry run sends nothing: its first step reports every selected process as
/// one that would get the terminate signal and ends the run as a success, and
/// a finished run expects no further event.
pub proof fn law_dry_run_sends_nothing(policy: EscalationPolicy, count: usize)
    requires
        policy.dry_run,
    ensures
        step(policy, count, initial_state(), EventView::Begin).1 == (CommandView::ReportDryRun {
            processes: all_positions(count),
            signal: policy.terminate_signal,
        }),
        step(policy, count, initial_state(), EventView::Begin).0.stage == Stage::Done,
        step(policy, count, initial_state(), EventView::Begin).0.success,
        forall|e: EventView| !expects(step(policy, count, initial_state(), EventView::Begin).0, e),
{
}

/// Without a wait, the run ends as soon as the terminate signal has been sent,
/// with the success of that phase, whether or not the processes are still alive.
pub proof fn law_no_wait_ends_after_terminating(
    policy: EscalationPolicy,
    count: usize,
    s: RunState,
    outcomes: Seq<Result<(), KillError>>,
)
    requires
        !waits(policy),
        s.stage == Stage::Signaled,
        outcomes.len() == s.watched.len(),
    ensures
        step(policy, count, s, EventView::Sent { outcomes }).1 == (CommandView::Finish {
            success: s.success && all_reached(outcomes),
            still_alive: Seq::empty(),
        }),
        step(policy, count, s, EventView::Sent { outcomes }).0.stage == Stage::Done,
{
}

/// A process that is already gone when the terminate signal is sent leaves the
/// run's success as it would be had the signal been accepted, and it is no
/// longer watched, so the wait does not cover it.
pub proof fn law_vanished_process_is_harmless(
    policy: EscalationPolicy,
    count: usize,
    s: RunState,
    outcomes: Seq<Result<(), KillError>>,
    i: int,
)
    requires
        sound(count, s),
        s.stage == Stage::Signaled,
        outcomes.len() == s.watched.len(),
        0 <= i < outcomes.len(),
        outcomes[i] == Err::<(), KillError>(KillError::DoesNotExist),
    ensures
        step(policy, count, s, EventView::Sent { outcomes }).0.success == step(
            policy,
            count,
            s,
            EventView::Sent { outcomes: outcomes.update(i, Ok(())) },
        ).0.success,
        !step(policy, count, s, EventView::Sent { outcomes }).0.watched.contains(s.watched[i]),
{
    let accepted_ok = outcomes.update(i, Ok(()));
    assert(all_reached(outcomes) == all_reached(accepted_ok)) by {
        if all_reached(outcomes) {
            assert forall|j: int| 0 <= j < accepted_ok.len() implies reached(#[trigger] accepted_ok[j]) by {
                if j != i {
                    assert(reached(outcomes[j]));
                }
            }
        }
        if all_reached(accepted_ok) {
            assert forall|j: int| 0 <= j < outcomes.len() implies reached(#[trigger] outcomes[j]) by {
                if j != i {
                    assert(reached(accepted_ok[j]));
                }
            }
        }
    }
    let flags = accepted(outcomes);
    if kept(s.watched, flags).contains(s.watched[i]) {
        lemma_kept_from_flagged(s.watched, flags, s.watched[i]);
        let j = choose|j: int| 0 <= j < s.watched.len() && j < flags.len() && s.watched[j] == s.watched[i] && flags[j];
        assert(j == i) by {
            if j < i {
                assert(s.watched[j] < s.watched[i]);
            } else if j > i {
                assert(s.watched[i] < s.watched[j]);
            }
        }
        assert(!flags[i]);
    }
}

/// Once a run has begun, no step adds a process to those watched.
pub proof fn law_watched_only_shrinks(policy: EscalationPolicy, count: usize, s: RunState, e: EventView, x: usize)
    requires
        s.stage != Stage::Selected,
        expects(s, e),
        step(policy, count, s, e).0.watched.contains(x),
    ensures
        s.watched.contains(x),
{
    match e {
        EventView::Sent { outcomes } => {
            if s.stage == Stage::Signaled {
                lemma_kept_from_flagged(s.watched, accepted(outcomes), x);
            }
        },
        EventView::Alive { alive } => {
            lemma_kept_from_flagged(s.watched, alive, x);
        },
        _ => {},
    }
}

/// Without force-kill, a wait that runs out while processes are still alive
/// ends the run as a failure that lists them as still alive; the finished run
/// expects no further event, so no kill signal is ever sent.
pub proof fn law_timeout_without_force_gives_up(policy: EscalationPolicy, count: usize, s: RunState, millis: u64)
    requires
        !policy.force_kill,
        s.stage == Stage::Waiting,
        s.watched.len() >= 1,
        wait_is_over(policy, millis),
    ensures
        step(policy, count, s, EventView::Elapsed { millis }).1 == (CommandView::Finish {
            success: false,
            still_alive: s.watched,
        }),
        step(policy, count, s, EventView::Elapsed { millis }).0.stage == Stage::Done,
        forall|e: EventView| !expects(step(policy, count, s, EventView::Elapsed { millis }).0, e),
{
}

} // verus!
