//! One run of the probe after the observation is made, as a machine that is
//! told what happened and answers what to do next. The caller does the work
//! that the machine asks for and reports how it went.
//!
//! The order is fixed: the last verdict is read, the deployment is looked up
//! only where the rule depends on it, the record is written before the
//! notification is sent, and each of the two happens at most once.

use crate::evaluator::{depends_on_deployment, is_reportable, reportable};
use crate::status::Status;
use vstd::prelude::*;

verus! {

/// What the machine is waiting for.
#[derive(Clone, Copy, Debug, PartialEq, Eq, Structural)]
pub enum Phase {
    /// The verdict that was reported last.
    AwaitingLastVerdict,
    /// Whether the engine was deployed recently.
    AwaitingDeployment,
    /// The write of the record.
    AwaitingWrite,
    /// The sending of the notification.
    AwaitingNotification,
    /// Nothing: the run is over.
    Finished,
}

/// What the caller does next.
#[derive(Clone, Copy, Debug, PartialEq, Eq, Structural)]
pub enum Action {
    /// Read the verdict that was reported last.
    ReadLastVerdict,
    /// Find out whether the engine was deployed recently.
    CheckDeployment,
    /// Write the record of the observation.
    WriteRecord,
    /// Send the notification on the observation.
    SendNotification,
    /// End the run: all is done.
    Succeed,
    /// End the run as failed.
    Fail,
}

/// What the caller reports.
#[derive(Clone, Copy, Debug, PartialEq, Eq, Structural)]
pub enum Event {
    /// The verdict that was reported last.
    LastVerdict(bool),
    /// Whether the engine was deployed recently.
    DeployedRecently(bool),
    /// The record has been written.
    Written,
    /// The notification has been sent.
    Notified,
    /// The work that was asked for failed.
    Failed,
}

/// One run of the probe on an observation with the verdict `is_healthy`.
#[derive(Clone, Copy, Debug, PartialEq, Eq, Structural)]
pub struct Invocation {
    pub is_healthy: bool,
    pub phase: Phase,
}

/// The phase that follows `phase` when `event` is reported, and what is to be
/// done then. The deployment is asked about only where the rule depends on
/// it, and then the last verdict was healthy. An event that the phase is not
/// waiting for ends the run as failed.
pub open spec fn step(phase: Phase, is_healthy: bool, event: Event) -> (Phase, Action) {
    match (phase, event) {
        (Phase::AwaitingLastVerdict, Event::LastVerdict(was_healthy)) => {
            if depends_on_deployment(was_healthy, is_healthy) {
                (Phase::AwaitingDeployment, Action::CheckDeployment)
            } else if reportable(was_healthy, is_healthy, false) {
                (Phase::AwaitingWrite, Action::WriteRecord)
            } else {
                (Phase::Finished, Action::Succeed)
            }
        },
        (Phase::AwaitingDeployment, Event::DeployedRecently(deployed_recently)) => {
            if reportable(true, is_healthy, deployed_recently) {
                (Phase::AwaitingWrite, Action::WriteRecord)
            } else {
                (Phase::Finished, Action::Succeed)
            }
        },
        (Phase::AwaitingWrite, Event::Written) => (
            Phase::AwaitingNotification,
            Action::SendNotification,
        ),
        (Phase::AwaitingNotification, Event::Notified) => (Phase::Finished, Action::Succeed),
        _ => (Phase::Finished, Action::Fail),
    }
}

/// The phase of a run that began in `phase`, after the first `n` of `events`.
pub open spec fn phase_after(phase: Phase, is_healthy: bool, events: Seq<Event>, n: nat) -> Phase
    decreases n,
{
    if n == 0 || n > events.len() {
        phase
    } else {
        step(phase_after(phase, is_healthy, events, (n - 1) as nat), is_healthy, events[n - 1]).0
    }
}

/// What a run that began in `phase` asks for when the event at position `i`
/// is reported.
pub open spec fn action_at(phase: Phase, is_healthy: bool, events: Seq<Event>, i: int) -> Action
    recommends
        0 <= i < events.len(),
{
    step(phase_after(phase, is_healthy, events, i as nat), is_healthy, events[i]).1
}

/// How far a phase is from the start of a run.
pub open spec fn progress(phase: Phase) -> int {
    match phase {
        Phase::AwaitingLastVerdict => 0,
        Phase::AwaitingDeployment => 1,
        Phase::AwaitingWrite => 2,
        Phase::AwaitingNotification => 3,
        Phase::Finished => 4,
    }
}

impl Invocation {
    /// Begins the run on an observation: the first thing to do is to read the
    /// verdict that was reported last.
    pub fn begin(status: &Status) -> (begun: (Invocation, Action))
        ensures
            begun.0.is_healthy == status.is_healthy(),
            begun.0.phase == Phase::AwaitingLastVerdict,
            begun.1 == Action::ReadLastVerdict,
    {
        (
            Invocation { is_healthy: status.healthy(), phase: Phase::AwaitingLastVerdict },
            Action::ReadLastVerdict,
        )
    }

    /// Whether the run is over.
    pub fn is_finished(&self) -> (finished: bool)
        ensures
            finished == (self.phase == Phase::Finished),
    {
        match self.phase {
            Phase::Finished => true,
            _ => false,
        }
    }

    /// Takes the report of what happened and answers what to do next.
    pub fn on_event(self, event: Event) -> (next: (Invocation, Action))
        ensures
            next.0.is_healthy == self.is_healthy,
            (next.0.phase, next.1) == step(self.phase, self.is_healthy, event),
    {
        let is_healthy = self.is_healthy;
        let (phase, action) = match (self.phase, event) {
            (Phase::AwaitingLastVerdict, Event::LastVerdict(was_healthy)) => {
                if was_healthy && !is_healthy {
                    (Phase::AwaitingDeployment, Action::CheckDeployment)
                } else if is_reportable(was_healthy, is_healthy, false) {
                    (Phase::AwaitingWrite, Action::WriteRecord)
                } else {
                    (Phase::Finished, Action::Succeed)
                }
            },
            (Phase::AwaitingDeployment, Event::DeployedRecently(deployed_recently)) => {
                if is_reportable(true, is_healthy, deployed_recently) {
                    (Phase::AwaitingWrite, Action::WriteRecord)
                } else {
                    (Phase::Finished, Action::Succeed)
                }
            },
            (Phase::AwaitingWrite, Event::Written) => (
                Phase::AwaitingNotification,
                Action::SendNotification,
            ),
            (Phase::AwaitingNotification, Event::Notified) => (Phase::Finished, Action::Succeed),
            _ => (Phase::Finished, Action::Fail),
        };
        (Invocation { is_healthy, phase }, action)
    }
}

/// The machine decides as the rule says: after the last verdict, and after the
/// answer on the deployment where the rule depends on it, the record is
/// written exactly where the change is one to report, and else the run ends
/// with nothing written.
pub proof fn lemma_writes_what_is_reportable(
    is_healthy: bool,
    was_healthy: bool,
    deployed_recently: bool,
)
    ensures
        ({
            let first = step(Phase::AwaitingLastVerdict, is_healthy, Event::LastVerdict(was_healthy));
            let second = step(first.0, is_healthy, Event::DeployedRecently(deployed_recently));
            let decided = if depends_on_deployment(was_healthy, is_healthy) {
                second
            } else {
                first
            };
            &&& (first.1 == Action::CheckDeployment) == depends_on_deployment(
                was_healthy,
                is_healthy,
            )
            &&& reportable(was_healthy, is_healthy, deployed_recently) ==> decided == (
                Phase::AwaitingWrite,
                Action::WriteRecord,
            )
            &&& !reportable(was_healthy, is_healthy, deployed_recently) ==> decided == (
                Phase::Finished,
                Action::Succeed,
            )
        }),
{
}

/// A run never goes back: each event takes it further, or leaves it finished.
pub proof fn lemma_progress(phase: Phase, is_healthy: bool, event: Event)
    ensures
        progress(step(phase, is_healthy, event).0) > progress(phase) || step(
            phase,
            is_healthy,
            event,
        ).0 == Phase::Finished,
        (step(phase, is_healthy, event).1 == Action::WriteRecord) == (step(
            phase,
            is_healthy,
            event,
        ).0 == Phase::AwaitingWrite),
        (step(phase, is_healthy, event).1 == Action::SendNotification) == (step(
            phase,
            is_healthy,
            event,
        ).0 == Phase::AwaitingNotification),
        step(phase, is_healthy, event).1 == Action::SendNotification ==> phase
            == Phase::AwaitingWrite && event == Event::Written,
        step(phase, is_healthy, event).1 != Action::ReadLastVerdict,
{
}

/// The phases of a run are in order: a later one is no nearer to the start.
pub proof fn lemma_phases_in_order(
    phase: Phase,
    is_healthy: bool,
    events: Seq<Event>,
    m: nat,
    n: nat,
)
    requires
        m <= n <= events.len(),
    ensures
        progress(phase_after(phase, is_healthy, events, m)) <= progress(
            phase_after(phase, is_healthy, events, n),
        ),
        progress(phase_after(phase, is_healthy, events, m)) < progress(
            phase_after(phase, is_healthy, events, n),
        ) || m == n || phase_after(phase, is_healthy, events, n) == Phase::Finished,
    decreases n - m,
{
    if m < n {
        lemma_phases_in_order(phase, is_healthy, events, m, (n - 1) as nat);
        lemma_progress(
            phase_after(phase, is_healthy, events, (n - 1) as nat),
            is_healthy,
            events[n - 1],
        );
    }
}

/// Where the observation has the verdict that was reported last, the run
/// never asks for the record to be written nor for the notification to be
/// sent, whatever is reported to it afterwards.
pub proof fn lemma_steady_verdict_writes_and_sends_nothing(
    verdict: bool,
    events: Seq<Event>,
    i: int,
)
    requires
        0 <= i < events.len(),
        events[0] == Event::LastVerdict(verdict),
    ensures
        action_at(Phase::AwaitingLastVerdict, verdict, events, i) != Action::WriteRecord,
        action_at(Phase::AwaitingLastVerdict, verdict, events, i) != Action::SendNotification,
        action_at(Phase::AwaitingLastVerdict, verdict, events, 0) == Action::Succeed,
{
    let start = Phase::AwaitingLastVerdict;
    assert(phase_after(start, verdict, events, 0) == start);
    assert(phase_after(start, verdict, events, 1) == Phase::Finished) by {
        reveal_with_fuel(phase_after, 2);
    }
    if i > 0 {
        lemma_phases_in_order(start, verdict, events, 1, i as nat);
        assert(phase_after(start, verdict, events, i as nat) == Phase::Finished);
    }
}

/// The same holds where the failure follows a recent deployment: nothing is
/// written and nothing is sent.
pub proof fn lemma_debounced_failure_writes_and_sends_nothing(events: Seq<Event>, i: int)
    requires
        2 <= events.len(),
        0 <= i < events.len(),
        events[0] == Event::LastVerdict(true),
        events[1] == Event::DeployedRecently(true),
    ensures
        action_at(Phase::AwaitingLastVerdict, false, events, i) != Action::WriteRecord,
        action_at(Phase::AwaitingLastVerdict, false, events, i) != Action::SendNotification,
{
    let start = Phase::AwaitingLastVerdict;
    reveal_with_fuel(phase_after, 3);
    assert(phase_after(start, false, events, 0) == start);
    assert(phase_after(start, false, events, 1) == Phase::AwaitingDeployment);
    assert(phase_after(start, false, events, 2) == Phase::Finished);
    if i >= 2 {
        lemma_phases_in_order(start, false, events, 2, i as nat);
        assert(phase_after(start, false, events, i as nat) == Phase::Finished);
    }
}

/// Work that failed ends the run as failed: from the report of the failure on
/// the run asks for nothing more.
pub proof fn lemma_failed_work_ends_the_run(
    phase: Phase,
    is_healthy: bool,
    events: Seq<Event>,
    k: int,
    i: int,
)
    requires
        0 <= k <= i < events.len(),
        events[k] == Event::Failed,
    ensures
        action_at(phase, is_healthy, events, i) == Action::Fail,
        phase_after(phase, is_healthy, events, (i + 1) as nat) == Phase::Finished,
{
    assert(phase_after(phase, is_healthy, events, (k + 1) as nat) == Phase::Finished);
    if k < i {
        lemma_phases_in_order(phase, is_healthy, events, (k + 1) as nat, i as nat);
        assert(phase_after(phase, is_healthy, events, i as nat) == Phase::Finished);
    }
}

/// Where reading the last verdict or looking up the deployment fails, the
/// run ends as failed with nothing written and nothing sent.
pub proof fn lemma_failure_before_the_write_writes_and_sends_nothing(
    is_healthy: bool,
    events: Seq<Event>,
    k: int,
    i: int,
)
    requires
        0 <= k < events.len(),
        0 <= i < events.len(),
        events[k] == Event::Failed,
        phase_after(Phase::AwaitingLastVerdict, is_healthy, events, k as nat)
            == Phase::AwaitingLastVerdict || phase_after(
            Phase::AwaitingLastVerdict,
            is_healthy,
            events,
            k as nat,
        ) == Phase::AwaitingDeployment,
    ensures
        action_at(Phase::AwaitingLastVerdict, is_healthy, events, i) != Action::WriteRecord,
        action_at(Phase::AwaitingLastVerdict, is_healthy, events, i) != Action::SendNotification,
        action_at(Phase::AwaitingLastVerdict, is_healthy, events, k) == Action::Fail,
{
    let start = Phase::AwaitingLastVerdict;
    lemma_failed_work_ends_the_run(start, is_healthy, events, k, k);
    if i < k {
        lemma_progress(phase_after(start, is_healthy, events, i as nat), is_healthy, events[i]);
        lemma_phases_in_order(start, is_healthy, events, (i + 1) as nat, k as nat);
        assert(phase_after(start, is_healthy, events, (i + 1) as nat) == step(
            phase_after(start, is_healthy, events, i as nat),
            is_healthy,
            events[i],
        ).0);
    } else {
        lemma_failed_work_ends_the_run(start, is_healthy, events, k, i);
    }
}

/// The notification is asked for only in answer to the report that the record
/// has been written, and that write was asked for just before.
pub proof fn lemma_notification_follows_write(is_healthy: bool, events: Seq<Event>, i: int)
    requires
        0 <= i < events.len(),
        action_at(Phase::AwaitingLastVerdict, is_healthy, events, i) == Action::SendNotification,
    ensures
        i > 0,
        events[i] == Event::Written,
        action_at(Phase::AwaitingLastVerdict, is_healthy, events, i - 1) == Action::WriteRecord,
{
    let start = Phase::AwaitingLastVerdict;
    let before = phase_after(start, is_healthy, events, i as nat);
    lemma_progress(before, is_healthy, events[i]);
    assert(before == Phase::AwaitingWrite);
    if i == 0 {
        assert(phase_after(start, is_healthy, events, 0) == start);
    } else {
        lemma_progress(
            phase_after(start, is_healthy, events, (i - 1) as nat),
            is_healthy,
            events[i - 1],
        );
    }
}

/// In one run the record is written at most once and the notification is sent
/// at most once.
pub proof fn lemma_at_most_once(
    phase: Phase,
    is_healthy: bool,
    events: Seq<Event>,
    i: int,
    j: int,
)
    requires
        0 <= i < j < events.len(),
    ensures
        !(action_at(phase, is_healthy, events, i) == Action::WriteRecord && action_at(
            phase,
            is_healthy,
            events,
            j,
        ) == Action::WriteRecord),
        !(action_at(phase, is_healthy, events, i) == Action::SendNotification && action_at(
            phase,
            is_healthy,
            events,
            j,
        ) == Action::SendNotification),
{
    let after_i = phase_after(phase, is_healthy, events, (i + 1) as nat);
    let before_j = phase_after(phase, is_healthy, events, j as nat);
    let after_j = phase_after(phase, is_healthy, events, (j + 1) as nat);
    lemma_progress(phase_after(phase, is_healthy, events, i as nat), is_healthy, events[i]);
    lemma_progress(before_j, is_healthy, events[j]);
    lemma_phases_in_order(phase, is_healthy, events, (i + 1) as nat, j as nat);
    assert(after_i == step(
        phase_after(phase, is_healthy, events, i as nat),
        is_healthy,
        events[i],
    ).0);
    assert(after_j == step(before_j, is_healthy, events[j]).0);
}

} // verus!
