//! The power-fail watcher: what an edge of the hold-up line leads to.
//!
//! An edge is confirmed by reading the line again after a debounce. A confirmed
//! edge has two answers, in this order: the mandatory one journals a marker with
//! the time of the edge; the best-effort one, only after that, exits cleanly.

use vstd::prelude::*;

verus! {

/// A failure of the edge source.
#[derive(Debug, Clone, PartialEq, Eq)]
pub struct EdgeError {
    reason: String,
}

impl EdgeError {
    /// The reason, as text.
    pub closed spec fn text(self) -> Seq<char> {
        self.reason@
    }

    /// A failure for the given reason.
    pub fn new(reason: String) -> (r: Self)
        ensures
            r.text() == reason@,
    {
        EdgeError { reason }
    }

    /// The reason.
    pub fn message(&self) -> (r: &str)
        ensures
            r@ == self.text(),
    {
        self.reason.as_str()
    }
}

/// Where the watcher reads its edges.
pub trait EdgeSource {
    /// Blocks until the next edge, or fails.
    fn wait_for_edge(&mut self) -> Result<(), EdgeError>;

    /// Whether the line is at the power-failing level now.
    fn is_asserted(&mut self) -> Result<bool, EdgeError>;
}

/// The answers to a confirmed edge.
pub trait PowerFailResponse {
    /// Journals the marker for an edge at `edge_mono_ns` and makes it durable.
    fn mandatory(&mut self, edge_mono_ns: u64);

    /// Exits cleanly, if power lasts.
    fn best_effort(&mut self);
}

/// Why the watcher ended.
#[derive(Debug, Clone, Copy, PartialEq, Eq, Structural)]
pub enum WatcherOutcome {
    /// A confirmed edge was answered.
    Fired,
    /// The edge source ended first.
    SourceEnded,
}

/// Where the watcher stands, and what it does next.
#[derive(Debug, Clone, Copy, PartialEq, Eq, Structural)]
pub enum Watcher {
    /// It waits for an edge.
    Waiting,
    /// It waits out the debounce and reads the line again.
    Confirming {
        /// When the edge came.
        edge_mono_ns: u64,
    },
    /// It runs the mandatory answer.
    Mandatory {
        /// When the edge came.
        edge_mono_ns: u64,
    },
    /// It runs the best-effort answer.
    BestEffort {
        /// When the edge came.
        edge_mono_ns: u64,
    },
    /// It has ended.
    Done(WatcherOutcome),
}

/// What happens to the watcher.
#[derive(Debug, Clone, Copy, PartialEq, Eq, Structural)]
pub enum WatcherEvent {
    /// An edge came, at this time.
    Edge {
        /// The monotonic clock as the edge came.
        mono_ns: u64,
    },
    /// The line was read again: whether it is still asserted.
    Read {
        /// Whether it is.
        asserted: bool,
    },
    /// The edge source failed.
    SourceFailed,
    /// The answer that was running has returned.
    Returned,
}

/// The watcher after `event`. What nobody waited for changes nothing.
pub open spec fn watched(watcher: Watcher, event: WatcherEvent) -> Watcher {
    match (watcher, event) {
        (Watcher::Waiting, WatcherEvent::Edge { mono_ns }) => Watcher::Confirming {
            edge_mono_ns: mono_ns,
        },
        (Watcher::Confirming { edge_mono_ns }, WatcherEvent::Read { asserted }) => if asserted {
            Watcher::Mandatory { edge_mono_ns }
        } else {
            Watcher::Waiting
        },
        (Watcher::Waiting, WatcherEvent::SourceFailed) => Watcher::Done(
            WatcherOutcome::SourceEnded,
        ),
        (Watcher::Confirming { .. }, WatcherEvent::SourceFailed) => Watcher::Done(
            WatcherOutcome::SourceEnded,
        ),
        (Watcher::Mandatory { edge_mono_ns }, WatcherEvent::Returned) => Watcher::BestEffort {
            edge_mono_ns,
        },
        (Watcher::BestEffort { .. }, WatcherEvent::Returned) => Watcher::Done(
            WatcherOutcome::Fired,
        ),
        _ => watcher,
    }
}

impl Watcher {
    /// The watcher as it starts.
    pub fn start() -> (r: Self)
        ensures
            r == Watcher::Waiting,
    {
        Watcher::Waiting
    }

    /// The watcher after `event`.
    pub fn on_event(self, event: WatcherEvent) -> (r: Self)
        ensures
            r == watched(self, event),
    {
        match (self, event) {
            (Watcher::Waiting, WatcherEvent::Edge { mono_ns }) => Watcher::Confirming {
                edge_mono_ns: mono_ns,
            },
            (Watcher::Confirming { edge_mono_ns }, WatcherEvent::Read { asserted }) => if asserted {
                Watcher::Mandatory { edge_mono_ns }
            } else {
                Watcher::Waiting
            },
            (Watcher::Waiting, WatcherEvent::SourceFailed) => Watcher::Done(
                WatcherOutcome::SourceEnded,
            ),
            (Watcher::Confirming { .. }, WatcherEvent::SourceFailed) => Watcher::Done(
                WatcherOutcome::SourceEnded,
            ),
            (Watcher::Mandatory { edge_mono_ns }, WatcherEvent::Returned) => Watcher::BestEffort {
                edge_mono_ns,
            },
            (Watcher::BestEffort { .. }, WatcherEvent::Returned) => Watcher::Done(
                WatcherOutcome::Fired,
            ),
            _ => self,
        }
    }
}

/// The watcher after a run of events.
pub open spec fn watch_run(events: Seq<WatcherEvent>) -> Watcher
    decreases events.len(),
{
    if events.len() == 0 {
        Watcher::Waiting
    } else {
        watched(watch_run(events.drop_last()), events.last())
    }
}

/// The mandatory answer comes first, in full: the watcher runs the best-effort
/// answer only when a mandatory one, for the same edge, has returned.
pub proof fn mandatory_returns_before_best_effort(events: Seq<WatcherEvent>)
    requires
        watch_run(events) is BestEffort,
    ensures
        watch_run(events) matches Watcher::BestEffort { edge_mono_ns } && exists|i: int|
            0 <= i < events.len() && watch_run(#[trigger] events.take(i)) == (
            Watcher::Mandatory { edge_mono_ns }) && events[i] == WatcherEvent::Returned,
    decreases events.len(),
{
    let before = events.drop_last();
    let n = events.len() - 1;
    if let Watcher::BestEffort { edge_mono_ns } = watch_run(events) {
        if watch_run(before) == (Watcher::BestEffort { edge_mono_ns }) {
            mandatory_returns_before_best_effort(before);
            let i = choose|i: int|
                0 <= i < before.len() && watch_run(#[trigger] before.take(i)) == (
                Watcher::Mandatory { edge_mono_ns }) && before[i] == WatcherEvent::Returned;
            assert(events.take(i) =~= before.take(i));
        } else {
            assert(events.take(n) =~= before);
        }
    }
}

/// An edge at `i` that a reading at `j` confirmed.
pub open spec fn confirmed(events: Seq<WatcherEvent>, i: int, j: int, edge_mono_ns: u64) -> bool {
    &&& 0 <= i < j < events.len()
    &&& events[i] == (WatcherEvent::Edge { mono_ns: edge_mono_ns })
    &&& events[j] == (WatcherEvent::Read { asserted: true })
}

/// The edge that is being confirmed came at the time that the watcher carries.
proof fn lemma_confirming(events: Seq<WatcherEvent>, edge_mono_ns: u64)
    requires
        watch_run(events) == (Watcher::Confirming { edge_mono_ns }),
    ensures
        exists|i: int|
            0 <= i < events.len() && #[trigger] events[i] == (WatcherEvent::Edge {
                mono_ns: edge_mono_ns,
            }),
    decreases events.len(),
{
    let before = events.drop_last();
    if watch_run(before) == (Watcher::Confirming { edge_mono_ns }) {
        lemma_confirming(before, edge_mono_ns);
        let i = choose|i: int|
            0 <= i < before.len() && #[trigger] before[i] == (WatcherEvent::Edge {
                mono_ns: edge_mono_ns,
            });
        assert(events[i] == before[i]);
    } else {
        assert(events[events.len() - 1] == events.last());
    }
}

/// A blip fires nothing: the mandatory answer runs only for an edge that a later
/// reading confirmed, and carries the time of that edge, not of the reading.
pub proof fn only_a_confirmed_edge_is_answered(events: Seq<WatcherEvent>, edge_mono_ns: u64)
    requires
        watch_run(events) == (Watcher::Mandatory { edge_mono_ns }),
    ensures
        exists|i: int, j: int| confirmed(events, i, j, edge_mono_ns),
    decreases events.len(),
{
    let before = events.drop_last();
    let n = events.len() - 1;
    if watch_run(before) == (Watcher::Mandatory { edge_mono_ns }) {
        only_a_confirmed_edge_is_answered(before, edge_mono_ns);
        let (i, j) = choose|i: int, j: int| confirmed(before, i, j, edge_mono_ns);
        assert(confirmed(events, i, j, edge_mono_ns));
    } else {
        lemma_confirming(before, edge_mono_ns);
        let i = choose|i: int|
            0 <= i < before.len() && #[trigger] before[i] == (WatcherEvent::Edge {
                mono_ns: edge_mono_ns,
            });
        assert(confirmed(events, i, n, edge_mono_ns));
    }
}

/// When a record becomes durable.
#[derive(Debug, Clone, Copy, PartialEq, Eq, Structural)]
pub enum SyncPolicy {
    /// With the next periodic sync.
    Deferred,
    /// At once.
    Immediate,
}

/// What a marker says.
#[derive(Debug, Clone, Copy, PartialEq, Eq, Structural)]
pub enum MarkerKind {
    /// Power is failing.
    PowerFailing,
    /// The recorder stopped deliberately.
    RecorderStopped,
}

/// A command to the thread that writes the log.
#[derive(Debug, Clone, Copy, PartialEq, Eq, Structural)]
pub enum WalCmd {
    /// Append a marker.
    Append {
        /// Its time.
        mono_ns: u64,
        /// What it says.
        kind: MarkerKind,
        /// When it becomes durable.
        sync: SyncPolicy,
    },
}

/// The production response: a marker for the log's thread, then a clean exit.
#[derive(Debug)]
pub struct WalChannelResponse {
    /// What is to be sent to the log's thread, in order.
    pub queue: Vec<WalCmd>,
    /// Whether the clean exit is asked for.
    pub exit: bool,
}

impl WalChannelResponse {
    /// A response that nothing has happened to.
    pub fn new() -> (r: Self)
        ensures
            r.queue@.len() == 0,
            !r.exit,
    {
        WalChannelResponse { queue: Vec::new(), exit: false }
    }
}

/// The marker of an edge: power is failing, durable at once.
pub open spec fn edge_marker(edge_mono_ns: u64) -> WalCmd {
    WalCmd::Append {
        mono_ns: edge_mono_ns,
        kind: MarkerKind::PowerFailing,
        sync: SyncPolicy::Immediate,
    }
}

impl PowerFailResponse for WalChannelResponse {
    fn mandatory(&mut self, edge_mono_ns: u64)
        ensures
            final(self).queue@ == old(self).queue@.push(edge_marker(edge_mono_ns)),
            final(self).exit == old(self).exit,
    {
        self.queue.push(
            WalCmd::Append {
                mono_ns: edge_mono_ns,
                kind: MarkerKind::PowerFailing,
                sync: SyncPolicy::Immediate,
            },
        );
    }

    fn best_effort(&mut self)
        ensures
            final(self).queue@ == old(self).queue@,
            final(self).exit,
    {
        self.exit = true;
    }
}

impl WalChannelResponse {
    /// Runs the answer that the watcher is at, and says that it returned; there
    /// is nothing to run at any other place.
    pub fn answer(&mut self, watcher: Watcher) -> (r: Option<WatcherEvent>)
        ensures
            match watcher {
                Watcher::Mandatory { edge_mono_ns } => {
                    &&& r == Some(WatcherEvent::Returned)
                    &&& final(self).queue@ == old(self).queue@.push(edge_marker(edge_mono_ns))
                    &&& final(self).exit == old(self).exit
                },
                Watcher::BestEffort { .. } => {
                    &&& r == Some(WatcherEvent::Returned)
                    &&& final(self).queue@ == old(self).queue@
                    &&& final(self).exit
                },
                _ => r is None && *final(self) == *old(self),
            },
    {
        match watcher {
            Watcher::Mandatory { edge_mono_ns } => {
                self.mandatory(edge_mono_ns);
                Some(WatcherEvent::Returned)
            },
            Watcher::BestEffort { .. } => {
                self.best_effort();
                Some(WatcherEvent::Returned)
            },
            _ => None,
        }
    }
}

/// Which way the line moves when power begins to fail.
#[derive(Debug, Clone, Copy, PartialEq, Eq, Structural)]
pub enum PowerFailEdge {
    /// Up.
    Rising,
    /// Down.
    Falling,
}

/// Whether a line at this level says that power is failing.
pub fn level_is_failing(edge: PowerFailEdge, high: bool) -> (r: bool)
    ensures
        r == (high == (edge == PowerFailEdge::Rising)),
{
    match edge {
        PowerFailEdge::Rising => high,
        PowerFailEdge::Falling => !high,
    }
}

} // verus!
