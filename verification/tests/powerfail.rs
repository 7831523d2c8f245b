//! The power-fail watcher, fed with scripted edges.

use plrd::powerfail::{
    level_is_failing, EdgeError, EdgeSource, MarkerKind, PowerFailEdge, PowerFailResponse,
    SyncPolicy, WalChannelResponse, WalCmd, Watcher, WatcherEvent, WatcherOutcome,
};
use std::collections::VecDeque;

/// An edge per entry, which says whether the line is still asserted when it is
/// read again; then the source ends.
struct SyntheticEdge {
    asserts: VecDeque<bool>,
}

impl SyntheticEdge {
    fn new(asserts: &[bool]) -> Self {
        SyntheticEdge { asserts: asserts.iter().copied().collect() }
    }
}

impl EdgeSource for SyntheticEdge {
    fn wait_for_edge(&mut self) -> Result<(), EdgeError> {
        if self.asserts.is_empty() {
            Err(EdgeError::new("no more synthetic edges".to_owned()))
        } else {
            Ok(())
        }
    }

    fn is_asserted(&mut self) -> Result<bool, EdgeError> {
        self.asserts.pop_front().ok_or_else(|| EdgeError::new("no synthetic edge".to_owned()))
    }
}

/// Keeps what runs, in order.
struct RecordingResponse {
    events: Vec<&'static str>,
    mandatory_edge: Option<u64>,
}

impl RecordingResponse {
    fn new() -> Self {
        RecordingResponse { events: vec![], mandatory_edge: None }
    }
}

impl PowerFailResponse for RecordingResponse {
    fn mandatory(&mut self, edge_mono_ns: u64) {
        self.mandatory_edge = Some(edge_mono_ns);
        self.events.push("mandatory");
    }

    fn best_effort(&mut self) {
        self.events.push("best_effort");
    }
}

/// Runs the watcher to its end, without waiting between an edge and its second
/// reading.
fn run_watcher(
    source: &mut dyn EdgeSource,
    response: &mut dyn PowerFailResponse,
    now: u64,
) -> WatcherOutcome {
    let mut watcher = Watcher::start();
    loop {
        let event = match watcher {
            Watcher::Waiting => match source.wait_for_edge() {
                Ok(()) => WatcherEvent::Edge { mono_ns: now },
                Err(_) => WatcherEvent::SourceFailed,
            },
            Watcher::Confirming { .. } => match source.is_asserted() {
                Ok(asserted) => WatcherEvent::Read { asserted },
                Err(_) => WatcherEvent::SourceFailed,
            },
            Watcher::Mandatory { edge_mono_ns } => {
                response.mandatory(edge_mono_ns);
                WatcherEvent::Returned
            }
            Watcher::BestEffort { .. } => {
                response.best_effort();
                WatcherEvent::Returned
            }
            Watcher::Done(outcome) => return outcome,
        };
        watcher = watcher.on_event(event);
    }
}

#[test]
fn a_confirmed_edge_runs_mandatory_then_best_effort_with_the_edge_time() {
    let mut response = RecordingResponse::new();
    let outcome = run_watcher(&mut SyntheticEdge::new(&[true]), &mut response, 12_345);
    assert_eq!(outcome, WatcherOutcome::Fired);
    assert_eq!(response.events, vec!["mandatory", "best_effort"]);
    assert_eq!(response.mandatory_edge, Some(12_345));
}

#[test]
fn a_spurious_edge_is_debounced_away_and_the_watcher_keeps_waiting() {
    let mut response = RecordingResponse::new();
    let outcome = run_watcher(&mut SyntheticEdge::new(&[false, true]), &mut response, 7);
    assert_eq!(outcome, WatcherOutcome::Fired);
    assert_eq!(response.events, vec!["mandatory", "best_effort"]);
}

#[test]
fn a_blip_with_no_following_edge_never_fires() {
    let mut response = RecordingResponse::new();
    let outcome = run_watcher(&mut SyntheticEdge::new(&[false]), &mut response, 0);
    assert_eq!(outcome, WatcherOutcome::SourceEnded);
    assert!(response.events.is_empty());
    assert_eq!(response.mandatory_edge, None);
}

#[test]
fn an_edge_source_that_ends_immediately_reports_source_ended() {
    let mut response = RecordingResponse::new();
    let outcome = run_watcher(&mut SyntheticEdge::new(&[]), &mut response, 0);
    assert_eq!(outcome, WatcherOutcome::SourceEnded);
    assert!(response.events.is_empty());
}

#[test]
fn the_production_response_journals_the_edge_and_exits() {
    let mut response = WalChannelResponse::new();
    let mut watcher = Watcher::start();
    assert_eq!(response.answer(watcher), None);
    watcher = watcher.on_event(WatcherEvent::Edge { mono_ns: 99 });
    assert_eq!(response.answer(watcher), None);
    watcher = watcher.on_event(WatcherEvent::Read { asserted: true });
    assert_eq!(watcher, Watcher::Mandatory { edge_mono_ns: 99 });
    watcher = watcher.on_event(response.answer(watcher).unwrap());
    assert_eq!(
        response.queue,
        vec![WalCmd::Append {
            mono_ns: 99,
            kind: MarkerKind::PowerFailing,
            sync: SyncPolicy::Immediate,
        }]
    );
    assert!(!response.exit);
    watcher = watcher.on_event(response.answer(watcher).unwrap());
    assert!(response.exit);
    assert_eq!(response.queue.len(), 1);
    assert_eq!(watcher, Watcher::Done(WatcherOutcome::Fired));
}

#[test]
fn the_failing_level_follows_the_edge() {
    assert!(level_is_failing(PowerFailEdge::Rising, true));
    assert!(!level_is_failing(PowerFailEdge::Rising, false));
    assert!(level_is_failing(PowerFailEdge::Falling, false));
    assert!(!level_is_failing(PowerFailEdge::Falling, true));
}

#[test]
fn an_edge_error_keeps_its_reason() {
    assert_eq!(EdgeError::new("chip gone".to_owned()).message(), "chip gone");
}
