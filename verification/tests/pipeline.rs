use rayhunter::display::DisplayState;
use rayhunter::pipeline::{
    plan_container_update, AnalysisReport, ContainerPlan, CurrentEntry, DiagDeviceCtrlMessage,
    ExitReason, PipelineAction, PipelineEvent, PipelineState, StreamItem, Warning,
};

/// What stands for recorder, analyser and store in these tests.
struct Sinks {
    open: bool,
    recorded: Vec<usize>,
    analysed: usize,
    total_written: usize,
    analysis_size: usize,
    store_raw_size: usize,
    store_analysis_size: usize,
    notices: Vec<DisplayState>,
}

impl Sinks {
    fn new() -> Sinks {
        Sinks {
            open: false,
            recorded: vec![],
            analysed: 0,
            total_written: 0,
            analysis_size: 0,
            store_raw_size: 0,
            store_analysis_size: 0,
            notices: vec![],
        }
    }

    fn perform(&mut self, actions: Vec<PipelineAction>, container_size: usize) {
        for action in actions {
            match action {
                PipelineAction::OpenSinks => {
                    assert!(!self.open);
                    self.open = true;
                },
                PipelineAction::CloseSinks => {
                    assert!(self.open);
                    self.open = false;
                },
                PipelineAction::Record => {
                    assert!(self.open);
                    self.recorded.push(container_size);
                    self.total_written += container_size;
                },
                PipelineAction::Analyze => {
                    assert!(self.open);
                    self.analysed += 1;
                    self.analysis_size += 10;
                    let plan = plan_container_update(AnalysisReport {
                        analysis_size_bytes: self.analysis_size,
                        attack_suspected: false,
                        warning_count: 0,
                        last_warning: None,
                        total_written: self.total_written,
                        entry: Some(CurrentEntry {
                            name: "entry".to_string(),
                            qmdl_size_bytes: self.store_raw_size,
                        }),
                    })
                    .unwrap();
                    self.store_analysis_size = plan.analysis_size_bytes;
                    if let Some(size) = plan.qmdl_size_bytes {
                        self.store_raw_size = size;
                    }
                    self.notices.extend(plan.warning_notice);
                    self.notices.extend(plan.status_notice);
                },
            }
        }
    }
}

fn feed(
    state: PipelineState,
    sinks: &mut Sinks,
    event: PipelineEvent,
    container_size: usize,
) -> PipelineState {
    let (next, actions) = state.step(event);
    sinks.perform(actions, container_size);
    next
}

#[test]
fn five_containers_between_start_and_stop_are_recorded_and_analysed_once_each() {
    let sizes = [100usize, 250, 1, 4096, 33];
    let mut sinks = Sinks::new();
    let mut state = PipelineState::new();
    assert_eq!(state, PipelineState::Idle);
    state = feed(
        state,
        &mut sinks,
        PipelineEvent::Control(DiagDeviceCtrlMessage::StartRecording),
        0,
    );
    assert_eq!(state, PipelineState::Active);
    for size in sizes {
        state = feed(state, &mut sinks, PipelineEvent::Stream(StreamItem::Container), size);
        assert_eq!(state, PipelineState::Active);
    }
    state = feed(
        state,
        &mut sinks,
        PipelineEvent::Control(DiagDeviceCtrlMessage::StopRecording),
        0,
    );
    assert_eq!(state, PipelineState::Idle);
    assert!(!sinks.open);
    assert_eq!(sinks.recorded, sizes.to_vec());
    assert_eq!(sinks.analysed, 5);
    assert_eq!(sinks.store_raw_size, 100 + 250 + 1 + 4096 + 33);
    assert_eq!(sinks.store_analysis_size, 50);
    assert_eq!(sinks.notices.len(), 5);
}

#[test]
fn malformed_container_is_skipped_and_the_next_is_served() {
    let mut sinks = Sinks::new();
    let mut state = PipelineState::Idle;
    state = feed(
        state,
        &mut sinks,
        PipelineEvent::Control(DiagDeviceCtrlMessage::StartRecording),
        0,
    );
    state = feed(state, &mut sinks, PipelineEvent::Stream(StreamItem::Container), 10);
    let (after_bad, actions) = state.step(PipelineEvent::Stream(StreamItem::Malformed));
    assert_eq!(after_bad, PipelineState::Active);
    assert!(actions.is_empty());
    state = feed(after_bad, &mut sinks, PipelineEvent::Stream(StreamItem::Container), 20);
    assert_eq!(state, PipelineState::Active);
    assert_eq!(sinks.recorded, vec![10, 20]);
    assert_eq!(sinks.analysed, 2);
    assert_eq!(sinks.store_raw_size, 30);
    let (idle, actions) = PipelineState::Idle.step(PipelineEvent::Stream(StreamItem::Malformed));
    assert_eq!((idle, actions), (PipelineState::Idle, vec![]));
}

#[test]
fn idle_pipeline_drops_containers() {
    let (state, actions) = PipelineState::Idle.step(PipelineEvent::Stream(StreamItem::Container));
    assert_eq!(state, PipelineState::Idle);
    assert!(actions.is_empty());
}

#[test]
fn end_of_stream_is_no_error() {
    for state in [PipelineState::Idle, PipelineState::Active] {
        let (next, actions) = state.step(PipelineEvent::Stream(StreamItem::Ended));
        assert_eq!(next, state);
        assert!(actions.is_empty());
    }
}

#[test]
fn start_while_active_closes_the_old_sinks_first() {
    let (state, actions) =
        PipelineState::Active.step(PipelineEvent::Control(DiagDeviceCtrlMessage::StartRecording));
    assert_eq!(state, PipelineState::Active);
    assert_eq!(actions, vec![PipelineAction::CloseSinks, PipelineAction::OpenSinks]);
    let (state, actions) =
        PipelineState::Idle.step(PipelineEvent::Control(DiagDeviceCtrlMessage::StartRecording));
    assert_eq!(state, PipelineState::Active);
    assert_eq!(actions, vec![PipelineAction::OpenSinks]);
}

#[test]
fn stop_while_idle_does_nothing() {
    let (state, actions) =
        PipelineState::Idle.step(PipelineEvent::Control(DiagDeviceCtrlMessage::StopRecording));
    assert_eq!((state, actions), (PipelineState::Idle, vec![]));
}

#[test]
fn exit_closes_the_sinks_and_ends_the_pipeline() {
    let exit = PipelineEvent::Control(DiagDeviceCtrlMessage::Exit);
    assert_eq!(
        PipelineState::Active.step(exit),
        (PipelineState::Exited(ExitReason::Requested), vec![PipelineAction::CloseSinks])
    );
    assert_eq!(
        PipelineState::Idle.step(exit),
        (PipelineState::Exited(ExitReason::Requested), vec![])
    );
    assert_eq!(
        PipelineState::Active.step(PipelineEvent::ControlClosed),
        (PipelineState::Exited(ExitReason::ControlClosed), vec![PipelineAction::CloseSinks])
    );
    assert_eq!(
        PipelineState::Idle.step(PipelineEvent::ControlClosed),
        (PipelineState::Exited(ExitReason::ControlClosed), vec![])
    );
}

#[test]
fn failures_end_the_pipeline() {
    assert_eq!(
        PipelineState::Active.step(PipelineEvent::Stream(StreamItem::Failed)),
        (PipelineState::Exited(ExitReason::StreamFailed), vec![PipelineAction::CloseSinks])
    );
    assert_eq!(
        PipelineState::Idle.step(PipelineEvent::Stream(StreamItem::Failed)),
        (PipelineState::Exited(ExitReason::StreamFailed), vec![])
    );
    assert_eq!(
        PipelineState::Active.step(PipelineEvent::SinkFailed),
        (PipelineState::Exited(ExitReason::SinkFailed), vec![])
    );
    assert_eq!(
        PipelineState::Idle.step(PipelineEvent::SinkFailed),
        (PipelineState::Exited(ExitReason::SinkFailed), vec![])
    );
}

#[test]
fn exited_pipeline_stays_exited() {
    let events = [
        PipelineEvent::Control(DiagDeviceCtrlMessage::StartRecording),
        PipelineEvent::Control(DiagDeviceCtrlMessage::StopRecording),
        PipelineEvent::Control(DiagDeviceCtrlMessage::Exit),
        PipelineEvent::ControlClosed,
        PipelineEvent::Stream(StreamItem::Container),
        PipelineEvent::Stream(StreamItem::Malformed),
        PipelineEvent::Stream(StreamItem::Ended),
        PipelineEvent::Stream(StreamItem::Failed),
        PipelineEvent::SinkFailed,
    ];
    for reason in [
        ExitReason::Requested,
        ExitReason::ControlClosed,
        ExitReason::StreamFailed,
        ExitReason::SinkFailed,
    ] {
        for event in events {
            assert_eq!(
                PipelineState::Exited(reason).step(event),
                (PipelineState::Exited(reason), vec![])
            );
        }
    }
}

fn report(attack: bool, last_warning: Option<Warning>, total: usize, stored: usize) -> AnalysisReport {
    AnalysisReport {
        analysis_size_bytes: 77,
        attack_suspected: attack,
        warning_count: 3,
        last_warning,
        total_written: total,
        entry: Some(CurrentEntry { name: "Tue Mar 18".to_string(), qmdl_size_bytes: stored }),
    }
}

#[test]
fn plan_tells_the_display_the_detail_of_a_warning() {
    let warning = Warning { message: "IMSI requested".to_string(), severity: "High".to_string() };
    let plan = plan_container_update(report(true, Some(warning), 500, 400)).unwrap();
    assert_eq!(plan, ContainerPlan {
        analysis_size_bytes: 77,
        qmdl_size_bytes: Some(500),
        warning_notice: Some(DisplayState::AnalysisWarning {
            message: "IMSI requested".to_string(),
            severity: "High".to_string(),
        }),
        status_notice: Some(DisplayState::DetailedStatus {
            qmdl_name: "Tue Mar 18".to_string(),
            qmdl_size_bytes: 500,
            analysis_size_bytes: 77,
            num_warnings: 3,
            last_warning: Some("IMSI requested".to_string()),
        }),
    });
}

#[test]
fn plan_falls_back_to_a_warning_without_detail() {
    let plan = plan_container_update(report(true, None, 500, 500)).unwrap();
    assert_eq!(plan, ContainerPlan {
        analysis_size_bytes: 77,
        qmdl_size_bytes: None,
        warning_notice: Some(DisplayState::WarningDetected),
        status_notice: None,
    });
}

#[test]
fn plan_is_quiet_without_a_suspicion() {
    let warning = Warning { message: "old".to_string(), severity: "Low".to_string() };
    let plan = plan_container_update(report(false, Some(warning), 9, 8)).unwrap();
    assert_eq!(plan.warning_notice, None);
    assert_eq!(plan.qmdl_size_bytes, Some(9));
    assert_eq!(plan.status_notice, Some(DisplayState::DetailedStatus {
        qmdl_name: "Tue Mar 18".to_string(),
        qmdl_size_bytes: 9,
        analysis_size_bytes: 77,
        num_warnings: 3,
        last_warning: Some("old".to_string()),
    }));
}

#[test]
fn plan_needs_a_current_entry() {
    let mut lost = report(true, None, 1, 0);
    lost.entry = None;
    assert_eq!(plan_container_update(lost), None);
}
