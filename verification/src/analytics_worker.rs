//! The decisions of the coordinator that keeps the miners supplied with fresh
//! analytics.
//!
//! The coordinator itself waits for messages, runs the synchronization step,
//! regenerates analytics and broadcasts. This module holds what it decides in
//! between: from the phase it is in and the event that came, the phase it
//! goes to and the action it takes next.

use vstd::prelude::*;

verus! {

/// How long the coordinator waits for a message before the timer fires, in
/// milliseconds.
pub const ANALYTICS_INTERVAL_MILLIS: u64 = 10000;

/// Name of the pool that the analytics bundle is broadcast to.
pub const MINER_WORKER_DISTRIBUTOR: &'static str = "miner_worker";

/// A control message to the coordinator.
#[derive(Clone, Copy, Debug, PartialEq, Eq, Structural)]
pub enum AnalyticsWorkerMessage {
    /// Synchronize, refresh, broadcast, then let the workers mine.
    RunLaunchProcedure,
    /// Synchronize, refresh and broadcast, without touching the workers' state.
    RegenerateAnalyticsJob,
}

/// What the synchronization step reports.
#[derive(Clone, Copy, Debug, PartialEq, Eq, Structural)]
pub enum MinerSyncExecuteStatus {
    Changed,
    NoChange,
}

/// How analytics are regenerated.
#[derive(Clone, Copy, Debug, PartialEq, Eq, Structural)]
pub enum AnalyticsTypeToPerform {
    /// Only if the current analytics are expired.
    RegenerateIfExpired,
    /// Whatever the age of the current analytics.
    ForceRegenerate,
}

/// The phase of the process that the workers observe.
#[derive(Clone, Copy, Debug, PartialEq, Eq, Structural)]
pub enum SharedWorkerState {
    Initializing,
    Syncing,
    Mining,
}

/// The stage of a refresh that can fail.
#[derive(Clone, Copy, Debug, PartialEq, Eq, Structural)]
pub enum RefreshStage {
    /// The external synchronization step.
    Sync,
    /// The regeneration of analytics.
    Analytics,
    /// Building the bundle or sending it to the workers.
    Broadcast,
    /// Writing the state that the workers observe.
    SharedState,
}

/// The phase that the coordinator is in.
#[derive(Clone, Copy, Debug, PartialEq, Eq, Structural)]
pub enum CoordinatorPhase {
    /// Waiting for a message or for the timer.
    Idle,
    /// The synchronization step runs.
    Syncing,
    /// Analytics are regenerated.
    Refreshing,
    /// The bundle is built and sent to the workers.
    Broadcasting,
    /// The state that the workers observe is written.
    Publishing,
    /// A stage failed; the process is to end.
    Stopped(RefreshStage),
}

/// What happened since the coordinator's last decision.
#[derive(Clone, Copy, Debug, PartialEq, Eq, Structural)]
pub enum CoordinatorEvent {
    /// No message came within the interval.
    Timeout,
    /// A control message came.
    Message(AnalyticsWorkerMessage),
    /// A message came that is no control message.
    UnknownMessage,
    /// The synchronization step ended with this status, at this time.
    SyncFinished(MinerSyncExecuteStatus, u64),
    /// Analytics were regenerated, or found fresh enough, at this time.
    AnalyticsFinished(u64),
    /// Every worker was sent the bundle.
    BroadcastFinished,
    /// The state that the workers observe was written.
    SharedStateWritten,
    /// The running stage failed.
    Failed,
}

/// What the coordinator does next.
#[derive(Clone, Copy, Debug, PartialEq, Eq, Structural)]
pub enum CoordinatorAction {
    /// Wait for the next message, up to the interval.
    Wait,
    /// Run the synchronization step.
    ExecuteSync,
    /// Regenerate analytics in the given way.
    RunAnalytics(AnalyticsTypeToPerform),
    /// Rebuild the prevent-flooding tracker, the terms index, the funnel and
    /// the mutate context, and send them to every worker as one bundle.
    BroadcastBundle,
    /// Write the state that the workers observe.
    WriteSharedState(SharedWorkerState),
    /// End the whole process, naming the stage that failed.
    Stop(RefreshStage),
}

/// The coordinator as the contracts see it.
pub ghost struct CoordinatorView {
    pub phase: CoordinatorPhase,
    /// True while the running refresh was started by the launch message.
    pub launching: bool,
    /// The state that the workers observe.
    pub shared_state: SharedWorkerState,
    /// When analytics were last regenerated, if ever.
    pub analytics_time: Option<u64>,
    /// How long analytics stay fresh.
    pub analytics_lifetime: u64,
}

/// True when there are no analytics yet or they are older than their
/// lifetime at time `now`.
pub open spec fn analytics_expired(coordinator: CoordinatorView, now: u64) -> bool {
    match coordinator.analytics_time {
        None => true,
        Some(time) => now - time >= coordinator.analytics_lifetime,
    }
}

/// The stage that runs in a phase, if one does.
pub open spec fn running_stage(phase: CoordinatorPhase) -> Option<RefreshStage> {
    match phase {
        CoordinatorPhase::Syncing => Some(RefreshStage::Sync),
        CoordinatorPhase::Refreshing => Some(RefreshStage::Analytics),
        CoordinatorPhase::Broadcasting => Some(RefreshStage::Broadcast),
        CoordinatorPhase::Publishing => Some(RefreshStage::SharedState),
        _ => None,
    }
}

/// The coordinator's decision: the coordinator after the event, and the
/// action to take.
///
/// - Idle, the timer or a control message starts a refresh with the
///   synchronization step; only the launch message makes it a launch.
/// - After the synchronization step analytics are regenerated: by force when
///   the step reported changes, and because they are expired when it did not.
///   When nothing changed and nothing is expired, a launch goes on to the
///   broadcast and any other refresh ends.
/// - After the analytics the bundle is broadcast.
/// - After the broadcast a launch writes `Mining` for the workers to see, and
///   any other refresh is done.
/// - A failure of the running stage stops the coordinator for good.
/// - An event that the phase does not wait for changes nothing.
pub open spec fn transition(coordinator: CoordinatorView, event: CoordinatorEvent) -> (
    CoordinatorView,
    CoordinatorAction,
) {
    match (coordinator.phase, event) {
        (CoordinatorPhase::Stopped(stage), _) => (coordinator, CoordinatorAction::Stop(stage)),
        (CoordinatorPhase::Idle, CoordinatorEvent::Timeout) => (
            CoordinatorView { phase: CoordinatorPhase::Syncing, launching: false, ..coordinator },
            CoordinatorAction::ExecuteSync,
        ),
        (CoordinatorPhase::Idle, CoordinatorEvent::Message(message)) => (
            CoordinatorView {
                phase: CoordinatorPhase::Syncing,
                launching: message == AnalyticsWorkerMessage::RunLaunchProcedure,
                ..coordinator
            },
            CoordinatorAction::ExecuteSync,
        ),
        (CoordinatorPhase::Syncing, CoordinatorEvent::SyncFinished(status, now)) => {
            if status == MinerSyncExecuteStatus::Changed {
                (
                    CoordinatorView { phase: CoordinatorPhase::Refreshing, ..coordinator },
                    CoordinatorAction::RunAnalytics(AnalyticsTypeToPerform::ForceRegenerate),
                )
            } else if analytics_expired(coordinator, now) {
                (
                    CoordinatorView { phase: CoordinatorPhase::Refreshing, ..coordinator },
                    CoordinatorAction::RunAnalytics(AnalyticsTypeToPerform::RegenerateIfExpired),
                )
            } else if coordinator.launching {
                (
                    CoordinatorView { phase: CoordinatorPhase::Broadcasting, ..coordinator },
                    CoordinatorAction::BroadcastBundle,
                )
            } else {
                (
                    CoordinatorView { phase: CoordinatorPhase::Idle, ..coordinator },
                    CoordinatorAction::Wait,
                )
            }
        },
        (CoordinatorPhase::Refreshing, CoordinatorEvent::AnalyticsFinished(now)) => (
            CoordinatorView {
                phase: CoordinatorPhase::Broadcasting,
                analytics_time: Some(now),
                ..coordinator
            },
            CoordinatorAction::BroadcastBundle,
        ),
        (CoordinatorPhase::Broadcasting, CoordinatorEvent::BroadcastFinished) => {
            if coordinator.launching {
                (
                    CoordinatorView { phase: CoordinatorPhase::Publishing, ..coordinator },
                    CoordinatorAction::WriteSharedState(SharedWorkerState::Mining),
                )
            } else {
                (
                    CoordinatorView { phase: CoordinatorPhase::Idle, ..coordinator },
                    CoordinatorAction::Wait,
                )
            }
        },
        (CoordinatorPhase::Publishing, CoordinatorEvent::SharedStateWritten) => (
            CoordinatorView {
                phase: CoordinatorPhase::Idle,
                launching: false,
                shared_state: SharedWorkerState::Mining,
                ..coordinator
            },
            CoordinatorAction::Wait,
        ),
        (phase, CoordinatorEvent::Failed) => match running_stage(phase) {
            Some(stage) => (
                CoordinatorView { phase: CoordinatorPhase::Stopped(stage), ..coordinator },
                CoordinatorAction::Stop(stage),
            ),
            None => (coordinator, CoordinatorAction::Wait),
        },
        _ => (coordinator, CoordinatorAction::Wait),
    }
}

/// The coordinator after a run of events, one decision each.
pub open spec fn after_events(coordinator: CoordinatorView, events: Seq<CoordinatorEvent>) -> CoordinatorView
    decreases events.len(),
{
    if events.len() == 0 {
        coordinator
    } else {
        transition(after_events(coordinator, events.drop_last()), events.last()).0
    }
}

/// The workers are told to mine only at the end of a launch whose broadcast
/// succeeded: a decision writes `Mining` only in the phase that follows the
/// broadcast, and only the end of a launch's broadcast leads into that phase.
pub proof fn lemma_mining_only_after_broadcast(coordinator: CoordinatorView, event: CoordinatorEvent)
    ensures
        transition(coordinator, event).0.shared_state != coordinator.shared_state ==> {
            &&& coordinator.phase == CoordinatorPhase::Publishing
            &&& event == CoordinatorEvent::SharedStateWritten
            &&& transition(coordinator, event).0.shared_state == SharedWorkerState::Mining
        },
        transition(coordinator, event).1 == CoordinatorAction::WriteSharedState(
            SharedWorkerState::Mining,
        ) <==> coordinator.phase == CoordinatorPhase::Broadcasting && event
            == CoordinatorEvent::BroadcastFinished && coordinator.launching,
        transition(coordinator, event).0.phase == CoordinatorPhase::Publishing
            && coordinator.phase != CoordinatorPhase::Publishing ==> coordinator.phase
            == CoordinatorPhase::Broadcasting && event == CoordinatorEvent::BroadcastFinished
            && coordinator.launching,
{
}

/// A failure of any running stage is fatal: the coordinator stops, names the
/// stage, and no later event brings it back or makes it act.
pub proof fn lemma_failure_is_fatal(
    coordinator: CoordinatorView,
    stage: RefreshStage,
    events: Seq<CoordinatorEvent>,
    event: CoordinatorEvent,
)
    requires
        running_stage(coordinator.phase) == Some(stage),
    ensures
        transition(coordinator, CoordinatorEvent::Failed).0.phase == CoordinatorPhase::Stopped(
            stage,
        ),
        transition(coordinator, CoordinatorEvent::Failed).1 == CoordinatorAction::Stop(stage),
        after_events(transition(coordinator, CoordinatorEvent::Failed).0, events)
            == transition(coordinator, CoordinatorEvent::Failed).0,
        transition(
            after_events(transition(coordinator, CoordinatorEvent::Failed).0, events),
            event,
        ).1 == CoordinatorAction::Stop(stage),
    decreases events.len(),
{
    if events.len() > 0 {
        lemma_failure_is_fatal(coordinator, stage, events.drop_last(), event);
    }
}

/// Analytics are regenerated exactly when the synchronization step reported
/// changes or the analytics are expired: by force in the first case, as
/// expired in the second.
pub proof fn lemma_regeneration(coordinator: CoordinatorView, status: MinerSyncExecuteStatus, now: u64)
    requires
        coordinator.phase == CoordinatorPhase::Syncing,
    ensures
        transition(coordinator, CoordinatorEvent::SyncFinished(status, now)).1
            == CoordinatorAction::RunAnalytics(AnalyticsTypeToPerform::ForceRegenerate) <==> status
            == MinerSyncExecuteStatus::Changed,
        transition(coordinator, CoordinatorEvent::SyncFinished(status, now)).1
            == CoordinatorAction::RunAnalytics(AnalyticsTypeToPerform::RegenerateIfExpired)
            <==> status == MinerSyncExecuteStatus::NoChange && analytics_expired(coordinator, now),
        transition(coordinator, CoordinatorEvent::SyncFinished(status, now)).0.phase
            == CoordinatorPhase::Refreshing <==> status == MinerSyncExecuteStatus::Changed
            || analytics_expired(coordinator, now),
{
}

/// The coordinator's memory between two decisions.
#[derive(Clone, Copy, Debug)]
pub struct Coordinator {
    phase: CoordinatorPhase,
    launching: bool,
    shared_state: SharedWorkerState,
    analytics_time: Option<u64>,
    analytics_lifetime: u64,
}

impl View for Coordinator {
    type V = CoordinatorView;

    closed spec fn view(&self) -> CoordinatorView {
        CoordinatorView {
            phase: self.phase,
            launching: self.launching,
            shared_state: self.shared_state,
            analytics_time: self.analytics_time,
            analytics_lifetime: self.analytics_lifetime,
        }
    }
}

impl Coordinator {
    /// An idle coordinator without analytics, whose workers are initializing.
    pub fn new(analytics_lifetime: u64) -> (r: Self)
        ensures
            r@ == (CoordinatorView {
                phase: CoordinatorPhase::Idle,
                launching: false,
                shared_state: SharedWorkerState::Initializing,
                analytics_time: None,
                analytics_lifetime,
            }),
    {
        Coordinator {
            phase: CoordinatorPhase::Idle,
            launching: false,
            shared_state: SharedWorkerState::Initializing,
            analytics_time: None,
            analytics_lifetime,
        }
    }

    /// The phase that the coordinator is in.
    pub fn phase(&self) -> (r: CoordinatorPhase)
        ensures
            r == self@.phase,
    {
        self.phase
    }

    /// The state that the workers observe.
    pub fn shared_state(&self) -> (r: SharedWorkerState)
        ensures
            r == self@.shared_state,
    {
        self.shared_state
    }

    /// Tells whether there are no analytics yet or they are older than their
    /// lifetime at time `now`.
    pub fn is_expired(&self, now: u64) -> (r: bool)
        ensures
            r == analytics_expired(self@, now),
    {
        match self.analytics_time {
            None => true,
            Some(time) => now >= time && now - time >= self.analytics_lifetime,
        }
    }

    /// Takes in one event and decides what to do next.
    pub fn step(&mut self, event: CoordinatorEvent) -> (r: CoordinatorAction)
        ensures
            (final(self)@, r) == transition(old(self)@, event),
    {
        match (self.phase, event) {
            (CoordinatorPhase::Stopped(stage), _) => CoordinatorAction::Stop(stage),
            (CoordinatorPhase::Idle, CoordinatorEvent::Timeout) => {
                self.phase = CoordinatorPhase::Syncing;
                self.launching = false;
                CoordinatorAction::ExecuteSync
            },
            (CoordinatorPhase::Idle, CoordinatorEvent::Message(message)) => {
                self.phase = CoordinatorPhase::Syncing;
                self.launching = match message {
                    AnalyticsWorkerMessage::RunLaunchProcedure => true,
                    AnalyticsWorkerMessage::RegenerateAnalyticsJob => false,
                };
                CoordinatorAction::ExecuteSync
            },
            (CoordinatorPhase::Syncing, CoordinatorEvent::SyncFinished(status, now)) => {
                let expired = self.is_expired(now);
                match status {
                    MinerSyncExecuteStatus::Changed => {
                        self.phase = CoordinatorPhase::Refreshing;
                        CoordinatorAction::RunAnalytics(AnalyticsTypeToPerform::ForceRegenerate)
                    },
                    MinerSyncExecuteStatus::NoChange => {
                        if expired {
                            self.phase = CoordinatorPhase::Refreshing;
                            CoordinatorAction::RunAnalytics(
                                AnalyticsTypeToPerform::RegenerateIfExpired,
                            )
                        } else if self.launching {
                            self.phase = CoordinatorPhase::Broadcasting;
                            CoordinatorAction::BroadcastBundle
                        } else {
                            self.phase = CoordinatorPhase::Idle;
                            CoordinatorAction::Wait
                        }
                    },
                }
            },
            (CoordinatorPhase::Refreshing, CoordinatorEvent::AnalyticsFinished(now)) => {
                self.phase = CoordinatorPhase::Broadcasting;
                self.analytics_time = Some(now);
                CoordinatorAction::BroadcastBundle
            },
            (CoordinatorPhase::Broadcasting, CoordinatorEvent::BroadcastFinished) => {
                if self.launching {
                    self.phase = CoordinatorPhase::Publishing;
                    CoordinatorAction::WriteSharedState(SharedWorkerState::Mining)
                } else {
                    self.phase = CoordinatorPhase::Idle;
                    CoordinatorAction::Wait
                }
            },
            (CoordinatorPhase::Publishing, CoordinatorEvent::SharedStateWritten) => {
                self.phase = CoordinatorPhase::Idle;
                self.launching = false;
                self.shared_state = SharedWorkerState::Mining;
                CoordinatorAction::Wait
            },
            (CoordinatorPhase::Syncing, CoordinatorEvent::Failed) => {
                self.phase = CoordinatorPhase::Stopped(RefreshStage::Sync);
                CoordinatorAction::Stop(RefreshStage::Sync)
            },
            (CoordinatorPhase::Refreshing, CoordinatorEvent::Failed) => {
                self.phase = CoordinatorPhase::Stopped(RefreshStage::Analytics);
                CoordinatorAction::Stop(RefreshStage::Analytics)
            },
            (CoordinatorPhase::Broadcasting, CoordinatorEvent::Failed) => {
                self.phase = CoordinatorPhase::Stopped(RefreshStage::Broadcast);
                CoordinatorAction::Stop(RefreshStage::Broadcast)
            },
            (CoordinatorPhase::Publishing, CoordinatorEvent::Failed) => {
                self.phase = CoordinatorPhase::Stopped(RefreshStage::SharedState);
                CoordinatorAction::Stop(RefreshStage::SharedState)
            },
            _ => CoordinatorAction::Wait,
        }
    }
}

} // verus!
