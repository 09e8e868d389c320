//! The decisions of the recording pipeline. One task owns the device: it
//! waits for a control message or for the next container, and serves
//! whichever comes. What it must then do with the recorder, the analyser,
//! the recording store and the display is decided here, from the state it is
//! in and from what came; doing it, and waiting, is the caller's part.
//!
//! The pipeline is idle, with no sink attached, or active, with a raw
//! recorder and an analyser that are attached and detached together, or it
//! has exited, for good.

use vstd::prelude::*;
use crate::display::DisplayState;

verus! {

/// A message on the pipeline's control channel.
#[derive(Clone, Copy, Debug, PartialEq, Eq, Structural)]
pub enum DiagDeviceCtrlMessage {
    StopRecording,
    /// Comes with a fresh pair of sinks, which the caller holds.
    StartRecording,
    Exit,
}

/// Why the pipeline has exited.
#[derive(Clone, Copy, Debug, PartialEq, Eq, Structural)]
pub enum ExitReason {
    /// An `Exit` message came.
    Requested,
    /// The control channel has no sender left.
    ControlClosed,
    /// The device could not be read.
    StreamFailed,
    /// A write to the recording, to the analysis or to the store failed.
    SinkFailed,
}

/// The state of the pipeline.
#[derive(Clone, Copy, Debug, PartialEq, Eq, Structural)]
pub enum PipelineState {
    Idle,
    Active,
    Exited(ExitReason),
}

/// What the device stream yielded.
#[derive(Clone, Copy, Debug, PartialEq, Eq, Structural)]
pub enum StreamItem {
    /// A container that decoded.
    Container,
    /// A container that did not decode. It is dropped, and the pipeline
    /// goes on: one bad frame from the modem is no reason to end a
    /// recording.
    Malformed,
    /// The end of the stream, with the control channel still open.
    Ended,
    /// An error of the device itself, which ends the pipeline.
    Failed,
}

/// What the pipeline is woken by.
#[derive(Clone, Copy, Debug, PartialEq, Eq, Structural)]
pub enum PipelineEvent {
    Control(DiagDeviceCtrlMessage),
    ControlClosed,
    Stream(StreamItem),
    /// A write that an earlier action asked for has failed.
    SinkFailed,
}

/// What the caller is to do, in the order given.
#[derive(Clone, Copy, Debug, PartialEq, Eq, Structural)]
pub enum PipelineAction {
    /// Attach the pair of sinks that came with the message.
    OpenSinks,
    /// Close the analyser, so that it flushes, and let go of the recorder.
    CloseSinks,
    /// Append the container to the raw recording as it is.
    Record,
    /// Hand the container to the analyser.
    Analyze,
}

impl PipelineState {
    /// The state in which the pipeline starts.
    pub fn new() -> (state: PipelineState)
        ensures
            state == PipelineState::Idle,
    {
        PipelineState::Idle
    }

    /// Whether sinks are attached.
    pub open spec fn has_sinks(self) -> bool {
        self is Active
    }

    /// The state that follows `self` on `event`. Starting makes the pipeline
    /// active and stopping makes it idle, whatever it was. An `Exit`, the
    /// loss of the control channel, an error of the device and a failed
    /// write end it. A container, decoded or not, and the end of the stream
    /// change nothing. Once it has exited it stays so.
    pub open spec fn next(self, event: PipelineEvent) -> PipelineState {
        match self {
            PipelineState::Exited(reason) => PipelineState::Exited(reason),
            _ => match event {
                PipelineEvent::Control(DiagDeviceCtrlMessage::StartRecording) =>
                    PipelineState::Active,
                PipelineEvent::Control(DiagDeviceCtrlMessage::StopRecording) => PipelineState::Idle,
                PipelineEvent::Control(DiagDeviceCtrlMessage::Exit) => PipelineState::Exited(
                    ExitReason::Requested,
                ),
                PipelineEvent::ControlClosed => PipelineState::Exited(ExitReason::ControlClosed),
                PipelineEvent::Stream(StreamItem::Failed) => PipelineState::Exited(
                    ExitReason::StreamFailed,
                ),
                PipelineEvent::Stream(_) => self,
                PipelineEvent::SinkFailed => PipelineState::Exited(ExitReason::SinkFailed),
            },
        }
    }

    /// What is to be done in state `self` on `event`. Sinks that are attached
    /// are closed before new ones are attached and before the pipeline goes
    /// idle or exits, but not after a write has failed. A container is
    /// recorded and then analysed while the pipeline is active, and dropped
    /// while it is idle. Nothing else asks for anything.
    pub open spec fn actions(self, event: PipelineEvent) -> Seq<PipelineAction> {
        match (self, event) {
            (PipelineState::Idle, PipelineEvent::Control(DiagDeviceCtrlMessage::StartRecording)) =>
                seq![PipelineAction::OpenSinks],
            (
                PipelineState::Active,
                PipelineEvent::Control(DiagDeviceCtrlMessage::StartRecording),
            ) => seq![PipelineAction::CloseSinks, PipelineAction::OpenSinks],
            (PipelineState::Active, PipelineEvent::Control(_)) => seq![PipelineAction::CloseSinks],
            (PipelineState::Active, PipelineEvent::ControlClosed) => seq![
                PipelineAction::CloseSinks,
            ],
            (PipelineState::Active, PipelineEvent::Stream(StreamItem::Failed)) => seq![
                PipelineAction::CloseSinks,
            ],
            (PipelineState::Active, PipelineEvent::Stream(StreamItem::Container)) => seq![
                PipelineAction::Record,
                PipelineAction::Analyze,
            ],
            _ => Seq::empty(),
        }
    }

    /// Serves one event: the state that follows, and what is to be done.
    pub fn step(self, event: PipelineEvent) -> (r: (PipelineState, Vec<PipelineAction>))
        ensures
            r.0 == self.next(event),
            r.1@ == self.actions(event),
    {
        let mut todo: Vec<PipelineAction> = Vec::new();
        match self {
            PipelineState::Exited(reason) => (PipelineState::Exited(reason), todo),
            PipelineState::Idle => match event {
                PipelineEvent::Control(DiagDeviceCtrlMessage::StartRecording) => {
                    todo.push(PipelineAction::OpenSinks);
                    (PipelineState::Active, todo)
                },
                PipelineEvent::Control(DiagDeviceCtrlMessage::StopRecording) => (
                    PipelineState::Idle,
                    todo,
                ),
                PipelineEvent::Control(DiagDeviceCtrlMessage::Exit) => (
                    PipelineState::Exited(ExitReason::Requested),
                    todo,
                ),
                PipelineEvent::ControlClosed => (
                    PipelineState::Exited(ExitReason::ControlClosed),
                    todo,
                ),
                PipelineEvent::Stream(StreamItem::Failed) => (
                    PipelineState::Exited(ExitReason::StreamFailed),
                    todo,
                ),
                PipelineEvent::Stream(_) => (PipelineState::Idle, todo),
                PipelineEvent::SinkFailed => (PipelineState::Exited(ExitReason::SinkFailed), todo),
            },
            PipelineState::Active => match event {
                PipelineEvent::Control(DiagDeviceCtrlMessage::StartRecording) => {
                    todo.push(PipelineAction::CloseSinks);
                    todo.push(PipelineAction::OpenSinks);
                    (PipelineState::Active, todo)
                },
                PipelineEvent::Control(DiagDeviceCtrlMessage::StopRecording) => {
                    todo.push(PipelineAction::CloseSinks);
                    (PipelineState::Idle, todo)
                },
                PipelineEvent::Control(DiagDeviceCtrlMessage::Exit) => {
                    todo.push(PipelineAction::CloseSinks);
                    (PipelineState::Exited(ExitReason::Requested), todo)
                },
                PipelineEvent::ControlClosed => {
                    todo.push(PipelineAction::CloseSinks);
                    (PipelineState::Exited(ExitReason::ControlClosed), todo)
                },
                PipelineEvent::Stream(StreamItem::Failed) => {
                    todo.push(PipelineAction::CloseSinks);
                    (PipelineState::Exited(ExitReason::StreamFailed), todo)
                },
                PipelineEvent::Stream(StreamItem::Container) => {
                    todo.push(PipelineAction::Record);
                    todo.push(PipelineAction::Analyze);
                    (PipelineState::Active, todo)
                },
                PipelineEvent::Stream(_) => (PipelineState::Active, todo),
                PipelineEvent::SinkFailed => (PipelineState::Exited(ExitReason::SinkFailed), todo),
            },
        }
    }

    /// Where the pipeline stands and all it has asked for after the events
    /// of `events`, served one after the other from state `self`.
    pub open spec fn run(self, events: Seq<PipelineEvent>) -> (PipelineState, Seq<PipelineAction>)
        decreases events.len(),
    {
        if events.len() == 0 {
            (self, Seq::empty())
        } else {
            let (state, done) = self.run(events.drop_last());
            (state.next(events.last()), done + state.actions(events.last()))
        }
    }
}

/// Whether the actions of `todo` can be done in their order when sinks are
/// attached or not as `open` says: only attached sinks are closed or
/// written to, and sinks are attached only where none are.
pub open spec fn performable(open: bool, todo: Seq<PipelineAction>) -> bool
    decreases todo.len(),
{
    if todo.len() == 0 {
        true
    } else {
        match todo[0] {
            PipelineAction::OpenSinks => !open && performable(true, todo.drop_first()),
            PipelineAction::CloseSinks => open && performable(false, todo.drop_first()),
            _ => open && performable(open, todo.drop_first()),
        }
    }
}

/// Whether sinks are attached once the actions of `todo` are done.
pub open spec fn open_after(open: bool, todo: Seq<PipelineAction>) -> bool
    decreases todo.len(),
{
    if todo.len() == 0 {
        open
    } else {
        match todo[0] {
            PipelineAction::OpenSinks => open_after(true, todo.drop_first()),
            PipelineAction::CloseSinks => open_after(false, todo.drop_first()),
            _ => open_after(open, todo.drop_first()),
        }
    }
}

/// A pipeline that has exited stays as it is and asks for nothing, whatever
/// comes.
pub proof fn lemma_exited_is_final(reason: ExitReason, event: PipelineEvent)
    ensures
        PipelineState::Exited(reason).next(event) == PipelineState::Exited(reason),
        PipelineState::Exited(reason).actions(event) == Seq::<PipelineAction>::empty(),
{
}

/// A container that does not decode, and the end of the stream, leave the
/// pipeline as it is: it asks for nothing and goes on in the same state, so
/// that the next container is served like any other.
pub proof fn lemma_bad_container_is_skipped(state: PipelineState)
    ensures
        state.next(PipelineEvent::Stream(StreamItem::Malformed)) == state,
        state.actions(PipelineEvent::Stream(StreamItem::Malformed)) == Seq::<
            PipelineAction,
        >::empty(),
        state.next(PipelineEvent::Stream(StreamItem::Ended)) == state,
        state.actions(PipelineEvent::Stream(StreamItem::Ended)) == Seq::<PipelineAction>::empty(),
{
}

/// What a step asks for can be done, and leaves sinks attached exactly where
/// the next state is active. The one exception is a failed write, after
/// which the pipeline ends without touching the sinks again.
pub proof fn lemma_sinks_follow_state(state: PipelineState, event: PipelineEvent)
    ensures
        performable(state.has_sinks(), state.actions(event)),
        event != PipelineEvent::SinkFailed ==> open_after(
            state.has_sinks(),
            state.actions(event),
        ) == state.next(event).has_sinks(),
{
    let todo = state.actions(event);
    reveal_with_fuel(performable, 3);
    reveal_with_fuel(open_after, 3);
    if todo.len() == 2 {
        assert(todo.drop_first().len() == 1);
        assert(todo.drop_first().drop_first().len() == 0);
        assert(todo.drop_first()[0] == todo[1]);
    } else if todo.len() == 1 {
        assert(todo.drop_first().len() == 0);
    }
}

/// Serving one run of events and then another is serving them all in a row.
pub proof fn lemma_run_in_parts(
    state: PipelineState,
    first: Seq<PipelineEvent>,
    second: Seq<PipelineEvent>,
)
    ensures
        state.run(first + second) == (
            state.run(first).0.run(second).0,
            state.run(first).1 + state.run(first).0.run(second).1,
        ),
    decreases second.len(),
{
    if second.len() == 0 {
        assert(first + second == first);
        assert(state.run(first).1 + Seq::<PipelineAction>::empty() == state.run(first).1);
    } else {
        let all = first + second;
        assert(all.drop_last() == first + second.drop_last());
        assert(all.last() == second.last());
        lemma_run_in_parts(state, first, second.drop_last());
        let mid = state.run(first).0;
        let (before, done) = mid.run(second.drop_last());
        assert(state.run(first).1 + (done + before.actions(second.last())) == (state.run(first).1
            + done) + before.actions(second.last()));
    }
}

/// `n` decoded containers, one after the other.
pub open spec fn containers(n: nat) -> Seq<PipelineEvent> {
    Seq::new(n, |i: int| PipelineEvent::Stream(StreamItem::Container))
}

/// `n` times: record, then analyse.
pub open spec fn processing(n: nat) -> Seq<PipelineAction> {
    Seq::new(
        2 * n,
        |i: int|
            if i % 2 == 0 {
                PipelineAction::Record
            } else {
                PipelineAction::Analyze
            },
    )
}

/// An active pipeline that is fed `n` containers stays active and records
/// and analyses each of them once, in the order in which they came.
pub proof fn lemma_active_processes_each(n: nat)
    ensures
        PipelineState::Active.run(containers(n)) == (PipelineState::Active, processing(n)),
    decreases n,
{
    if n == 0 {
        assert(processing(0) == Seq::<PipelineAction>::empty());
    } else {
        lemma_active_processes_each((n - 1) as nat);
        assert(containers(n).drop_last() == containers((n - 1) as nat));
        assert(processing((n - 1) as nat) + seq![PipelineAction::Record, PipelineAction::Analyze]
            == processing(n));
    }
}

/// An idle pipeline that is fed `n` containers stays idle and drops them.
pub proof fn lemma_idle_drops_each(n: nat)
    ensures
        PipelineState::Idle.run(containers(n)) == (
            PipelineState::Idle,
            Seq::<PipelineAction>::empty(),
        ),
    decreases n,
{
    if n > 0 {
        lemma_idle_drops_each((n - 1) as nat);
        assert(containers(n).drop_last() == containers((n - 1) as nat));
    }
}

/// A recording from start to stop. An idle pipeline that is started, fed `n`
/// containers and stopped is idle again, and has asked for this and no more:
/// to attach the sinks, to record and analyse each of the `n` containers
/// once, and to close the sinks.
pub proof fn lemma_recording_session(n: nat)
    ensures
        PipelineState::Idle.run(
            seq![PipelineEvent::Control(DiagDeviceCtrlMessage::StartRecording)] + containers(n)
                + seq![PipelineEvent::Control(DiagDeviceCtrlMessage::StopRecording)],
        ) == (
            PipelineState::Idle,
            seq![PipelineAction::OpenSinks] + processing(n) + seq![PipelineAction::CloseSinks],
        ),
{
    let start = seq![PipelineEvent::Control(DiagDeviceCtrlMessage::StartRecording)];
    let stop = seq![PipelineEvent::Control(DiagDeviceCtrlMessage::StopRecording)];
    reveal_with_fuel(PipelineState::run, 2);
    assert(start.drop_last().len() == 0);
    assert(stop.drop_last().len() == 0);
    assert(PipelineState::Idle.run(start) == (
        PipelineState::Active,
        Seq::<PipelineAction>::empty() + seq![PipelineAction::OpenSinks],
    ));
    assert(Seq::<PipelineAction>::empty() + seq![PipelineAction::OpenSinks]
        == seq![PipelineAction::OpenSinks]);
    assert(PipelineState::Active.run(stop) == (
        PipelineState::Idle,
        Seq::<PipelineAction>::empty() + seq![PipelineAction::CloseSinks],
    ));
    assert(Seq::<PipelineAction>::empty() + seq![PipelineAction::CloseSinks]
        == seq![PipelineAction::CloseSinks]);
    lemma_active_processes_each(n);
    lemma_run_in_parts(PipelineState::Idle, start, containers(n));
    lemma_run_in_parts(PipelineState::Idle, start + containers(n), stop);
}

/// A warning of the analyser.
#[derive(Clone, Debug, PartialEq)]
pub struct Warning {
    pub message: String,
    pub severity: String,
}

/// The entry of the recording store that is being written.
#[derive(Clone, Debug, PartialEq)]
pub struct CurrentEntry {
    /// The name under which the display shows the entry.
    pub name: String,
    /// The raw size that the store holds for the entry.
    pub qmdl_size_bytes: usize,
}

/// What is known once a container has been recorded and analysed.
#[derive(Clone, Debug, PartialEq)]
pub struct AnalysisReport {
    /// The size of all that the analyser has put out.
    pub analysis_size_bytes: usize,
    /// Whether the analyser suspects an attack in this container.
    pub attack_suspected: bool,
    /// How many warnings the analyser has raised so far.
    pub warning_count: usize,
    /// The last of them, if the analyser can say.
    pub last_warning: Option<Warning>,
    /// The size of all that the recorder has written.
    pub total_written: usize,
    /// The entry that the store holds as current, if it holds one.
    pub entry: Option<CurrentEntry>,
}

/// What is to be done once a container has been recorded and analysed: the
/// store is brought up to date first, and the display is told after, of a
/// warning before the status. A notice that the display does not take is
/// dropped.
#[derive(Clone, Debug, PartialEq)]
pub struct ContainerPlan {
    /// The analysis size to store for the entry.
    pub analysis_size_bytes: usize,
    /// The raw size to store for the entry, together with the time of this,
    /// its last message: only where the size has changed.
    pub qmdl_size_bytes: Option<usize>,
    /// What to tell the display of a suspected attack.
    pub warning_notice: Option<DisplayState>,
    /// What to tell the display of the recording's progress.
    pub status_notice: Option<DisplayState>,
}

/// What the display is told of a suspected attack: the last warning with its
/// message and severity where there is one, a warning without detail where
/// there is none.
pub open spec fn warning_notice(last_warning: Option<Warning>) -> DisplayState {
    match last_warning {
        Some(warning) => DisplayState::AnalysisWarning {
            message: warning.message,
            severity: warning.severity,
        },
        None => DisplayState::WarningDetected,
    }
}

/// The message of the last warning, if there is one.
pub open spec fn last_message(last_warning: Option<Warning>) -> Option<String> {
    match last_warning {
        Some(warning) => Some(warning.message),
        None => None,
    }
}

/// What is to be done on `report`, for the entry `entry`. The analysis size
/// is stored in any case. The display hears of a suspected attack. Where the
/// recorder has written more than the store knows of, the store gets the raw
/// size and the display the detailed status: name, both sizes, the number of
/// warnings and the last one's message.
pub open spec fn plan_for(report: AnalysisReport, entry: CurrentEntry) -> ContainerPlan {
    let changed = entry.qmdl_size_bytes != report.total_written;
    ContainerPlan {
        analysis_size_bytes: report.analysis_size_bytes,
        qmdl_size_bytes: if changed {
            Some(report.total_written)
        } else {
            None
        },
        warning_notice: if report.attack_suspected {
            Some(warning_notice(report.last_warning))
        } else {
            None
        },
        status_notice: if changed {
            Some(
                DisplayState::DetailedStatus {
                    qmdl_name: entry.name,
                    qmdl_size_bytes: report.total_written,
                    analysis_size_bytes: report.analysis_size_bytes,
                    num_warnings: report.warning_count,
                    last_warning: last_message(report.last_warning),
                },
            )
        } else {
            None
        },
    }
}

/// The raw size that the store holds for the entry once `plan` is carried
/// out.
pub open spec fn stored_size_after(plan: ContainerPlan, entry: CurrentEntry) -> usize {
    match plan.qmdl_size_bytes {
        Some(size) => size,
        None => entry.qmdl_size_bytes,
    }
}

/// Once the plan for a container is carried out, the store holds for the
/// entry what the recorder has written and what the analyser has put out.
pub proof fn lemma_store_catches_up(report: AnalysisReport, entry: CurrentEntry)
    ensures
        stored_size_after(plan_for(report, entry), entry) == report.total_written,
        plan_for(report, entry).analysis_size_bytes == report.analysis_size_bytes,
        plan_for(report, entry).status_notice is Some <==> plan_for(
            report,
            entry,
        ).qmdl_size_bytes is Some,
        plan_for(report, entry).warning_notice is Some <==> report.attack_suspected,
{
}

/// Decides what is to be done once a container has been recorded and
/// analysed. Without a current entry in the store there is nothing to
/// update: the recording is inconsistent, and the caller is to treat this
/// like a failed write.
pub fn plan_container_update(report: AnalysisReport) -> (plan: Option<ContainerPlan>)
    ensures
        plan == match report.entry {
            Some(entry) => Some(plan_for(report, entry)),
            None => None,
        },
{
    let AnalysisReport {
        analysis_size_bytes,
        attack_suspected,
        warning_count,
        last_warning,
        total_written,
        entry,
    } = report;
    let entry: CurrentEntry = match entry {
        Some(entry) => entry,
        None => {
            return None;
        },
    };
    let changed: bool = entry.qmdl_size_bytes != total_written;
    let last_text: Option<String> = match &last_warning {
        Some(warning) => Some(warning.message.clone()),
        None => None,
    };
    let warning: Option<DisplayState> = if attack_suspected {
        match last_warning {
            Some(warning) => Some(
                DisplayState::AnalysisWarning {
                    message: warning.message,
                    severity: warning.severity,
                },
            ),
            None => Some(DisplayState::WarningDetected),
        }
    } else {
        None
    };
    let status: Option<DisplayState> = if changed {
        Some(
            DisplayState::DetailedStatus {
                qmdl_name: entry.name,
                qmdl_size_bytes: total_written,
                analysis_size_bytes,
                num_warnings: warning_count,
                last_warning: last_text,
            },
        )
    } else {
        None
    };
    Some(
        ContainerPlan {
            analysis_size_bytes,
            qmdl_size_bytes: if changed {
                Some(total_written)
            } else {
                None
            },
            warning_notice: warning,
            status_notice: status,
        },
    )
}

} // verus!
