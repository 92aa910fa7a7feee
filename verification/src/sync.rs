//! The sync engine: it turns the events of the watch source into changes of
//! the index, one event at a time and in the order of arrival.
//!
//! Every translation is an upsert or an idempotent delete, so that an event
//! applied twice, or events for different keys applied in another order, leave
//! the index in the same state.  The laws at the end of the module say so.

use crate::error::Error;
use crate::fdb::{apply_change, apply_changes, Change, ChangeView, Fdb, File, FileData, Index, Written};
use crate::monitor::Error as MonitorError;
use crate::monitor::{EventKind, Monitor, MonitorView, Received, WatchEvent, WatchEventView};
use vstd::prelude::*;
use vstd::string::*;

verus! {

/// The separator between the segments of a path.
pub const SEPARATOR: char = '/';

/// The position at which the final segment of `path` begins: just behind its
/// last separator, or at the start where it has none.
pub open spec fn segment_start(path: Seq<char>) -> int
    decreases path.len(),
{
    if path.len() == 0 || path.last() == SEPARATOR {
        path.len() as int
    } else {
        segment_start(path.drop_last())
    }
}

/// The final segment of `path`: what follows its last separator, or all of it
/// where it has none.  This is the key under which the index files a path.
pub open spec fn final_segment(path: Seq<char>) -> Seq<char> {
    path.subrange(segment_start(path), path.len() as int)
}

/// The final segment begins at `at` exactly when no separator stands at or
/// behind `at`, and `at` is the start of the path or stands just behind one.
pub proof fn lemma_segment_start(path: Seq<char>, at: int)
    requires
        0 <= at <= path.len(),
        forall|j: int| at <= j < path.len() ==> path[j] != SEPARATOR,
        at == 0 || path[at - 1] == SEPARATOR,
    ensures
        segment_start(path) == at,
    decreases path.len(),
{
    if at < path.len() {
        let shorter = path.drop_last();
        assert(path.last() != SEPARATOR);
        assert forall|j: int| at <= j < shorter.len() implies shorter[j] != SEPARATOR by {
            assert(shorter[j] == path[j]);
        }
        lemma_segment_start(shorter, at);
    }
}

/// The key of a path: its final segment.
pub fn key_of(path: &str) -> (key: String)
    ensures
        key@ == final_segment(path@),
{
    let n = path.unicode_len();
    let mut at: usize = 0;
    let mut seen: usize = 0;
    for c in it: path.chars()
        invariant
            n == path@.len(),
            it.seq() == path@,
            seen == it.index(),
            at <= seen <= n,
            forall|j: int| at <= j < seen ==> path@[j] != SEPARATOR,
            at == 0 || path@[at - 1] == SEPARATOR,
    {
        seen += 1;
        if c == SEPARATOR {
            at = seen;
        }
    }
    proof {
        lemma_segment_start(path@, at as int);
    }
    path.substring_char(at, n).to_owned()
}

/// The changes of a list as mathematics.
pub open spec fn change_views(changes: Seq<Change>) -> Seq<ChangeView> {
    Seq::new(changes.len(), |i: int| changes[i]@)
}

/// The upsert that files `path` under its key.
pub open spec fn put_of(path: Seq<char>) -> ChangeView {
    ChangeView::Put { key: final_segment(path), path }
}

/// The delete that drops whatever is filed under the key of `path`.
pub open spec fn delete_of(path: Seq<char>) -> ChangeView {
    ChangeView::Delete { key: final_segment(path) }
}

/// The changes that an event stands for, in the order in which they are made.
///
/// A creation and a change are the same upsert, so that a change to a file
/// that the index does not know yet creates its record.  A removal is a
/// delete.  A rename deletes under the old key and then upserts under the new
/// one.  An event with the wrong number of paths stands for no change.
pub open spec fn translation(ev: WatchEventView) -> Seq<ChangeView> {
    if !ev.wf() {
        seq![]
    } else {
        match ev.kind {
            EventKind::Create => seq![put_of(ev.paths[0])],
            EventKind::Modify => seq![put_of(ev.paths[0])],
            EventKind::Remove => seq![delete_of(ev.paths[0])],
            EventKind::Rename => seq![delete_of(ev.paths[0]), put_of(ev.paths[1])],
        }
    }
}

/// The record that files `path` under its key.
fn record_of(path: &String) -> (f: File)
    ensures
        f.name@ == final_segment(path@),
        f.data.path@ == path@,
{
    File { name: key_of(path.as_str()), data: FileData { path: path.clone() } }
}

/// Translates an event into the changes that the backend of `fdb` has to
/// make, in order.
pub fn translate(fdb: &Fdb, ev: &WatchEvent) -> (changes: Vec<Change>)
    ensures
        change_views(changes@) == translation(ev@),
{
    let mut changes: Vec<Change> = Vec::new();
    let count = ev.paths.len();
    match ev.kind {
        EventKind::Create => {
            if count == 1 {
                let f = record_of(&ev.paths[0]);
                changes.push(fdb.add(&f));
            }
        },
        EventKind::Modify => {
            if count == 1 {
                let f = record_of(&ev.paths[0]);
                changes.push(fdb.update(&f.name, f.data));
            }
        },
        EventKind::Remove => {
            if count == 1 {
                let key = key_of(ev.paths[0].as_str());
                changes.push(fdb.remove(&key));
            }
        },
        EventKind::Rename => {
            if count == 2 {
                let old_key = key_of(ev.paths[0].as_str());
                changes.push(fdb.remove(&old_key));
                let f = record_of(&ev.paths[1]);
                changes.push(fdb.add(&f));
            }
        },
    }
    assert(change_views(changes@) =~= translation(ev@));
    changes
}

/// Where the engine stands in its life.  It only ever moves forward.
#[derive(Clone, Copy, Debug, PartialEq, Eq, Structural)]
pub enum Phase {
    /// No root has been put under observation yet.
    Unwatched,
    /// Events are pulled and applied.
    Watching,
    /// A stop was asked for, or the stream of notifications has ended: no
    /// event is pulled any more, but what is left of the event in hand is
    /// still applied.
    Draining,
    /// Nothing is pulled or applied any more.  The roots are handed back for
    /// release, one at a time.
    Stopped,
}

impl Phase {
    /// The place of a phase in the engine's life.
    pub open spec fn rank(self) -> nat {
        match self {
            Phase::Unwatched => 0,
            Phase::Watching => 1,
            Phase::Draining => 2,
            Phase::Stopped => 3,
        }
    }
}

/// What the caller has to do next.
#[derive(Debug)]
pub enum Action {
    /// Nothing, until a root is put under observation.
    Idle,
    /// Pull from the channel of notifications and hand what comes out to
    /// `on_received`.
    Pull,
    /// Have the backend make this change and hand its answer to `on_written`.
    Apply(Change),
    /// Ask the watch facility to release this root.  The engine has forgotten
    /// it already.
    Release(String),
    /// Nothing, ever again: the engine has stopped and holds no root.
    Halt,
}

/// An action as mathematics.
pub enum ActionView {
    Idle,
    Pull,
    Apply(ChangeView),
    Release(Seq<char>),
    Halt,
}

impl View for Action {
    type V = ActionView;

    open spec fn view(&self) -> ActionView {
        match *self {
            Action::Idle => ActionView::Idle,
            Action::Pull => ActionView::Pull,
            Action::Apply(change) => ActionView::Apply(change@),
            Action::Release(root) => ActionView::Release(root@),
            Action::Halt => ActionView::Halt,
        }
    }
}

/// The changes of one event that are still to be made.  There is always one.
#[derive(Debug)]
struct Batch {
    first: Change,
    rest: Vec<Change>,
}

impl View for Batch {
    type V = Seq<ChangeView>;

    closed spec fn view(&self) -> Seq<ChangeView> {
        seq![self.first@] + change_views(self.rest@)
    }
}

/// The batches of a list as mathematics.
spec fn batch_views(batches: Seq<Batch>) -> Seq<Seq<ChangeView>> {
    Seq::new(batches.len(), |i: int| batches[i]@)
}

/// The engine as mathematics.
pub struct EngineView {
    pub phase: Phase,
    pub monitor: MonitorView,
    /// What is left of the event in hand, the one of which a change was
    /// handed out last: its changes that have not been handed out yet, in the
    /// order in which they are to be made.
    pub current: Seq<ChangeView>,
    /// The events that were taken in behind it and of which nothing has been
    /// handed out yet, first taken in first: for each its changes, in order.
    pub queued: Seq<Seq<ChangeView>>,
}

impl EngineView {
    /// Every event that waits has a change to make.
    pub open spec fn wf(self) -> bool {
        forall|i: int| 0 <= i < self.queued.len() ==> (#[trigger] self.queued[i]).len() > 0
    }

    /// All changes that have not been handed out yet, in the order in which
    /// they are to be made.
    pub open spec fn pending(self) -> Seq<ChangeView> {
        self.current + self.queued.flatten()
    }

    /// Whether a change has not been handed out yet.
    pub open spec fn has_pending(self) -> bool {
        self.current.len() > 0 || self.queued.len() > 0
    }

    /// The phase in which an engine starts over the watch source `monitor`.
    pub open spec fn initial_phase(monitor: MonitorView) -> Phase {
        if monitor.closed {
            Phase::Stopped
        } else if monitor.roots.len() > 0 {
            Phase::Watching
        } else {
            Phase::Unwatched
        }
    }

    /// Whether roots are still accepted: not once a stop was asked for.
    pub open spec fn accepts_roots(self) -> bool {
        self.phase == Phase::Unwatched || self.phase == Phase::Watching
    }

    /// What `watch` returns.
    pub open spec fn watch_result(self, d: Seq<char>, outcome: Result<(), String>) -> Result<
        (),
        Error,
    > {
        if !self.accepts_roots() {
            Err(Error::Monitor(MonitorError::Sync))
        } else {
            match self.monitor.watch_result(d, outcome) {
                Ok(_) => Ok(()),
                Err(e) => Err(Error::Monitor(e)),
            }
        }
    }

    /// The engine after `watch`: a root that was accepted sets an engine that
    /// observed nothing to watching.
    pub open spec fn after_watch(self, d: Seq<char>, outcome: Result<(), String>) -> EngineView {
        if !self.accepts_roots() {
            self
        } else {
            EngineView {
                phase: if self.monitor.watch_result(d, outcome) is Ok {
                    Phase::Watching
                } else {
                    self.phase
                },
                monitor: self.monitor.after_watch(d, outcome),
                ..self
            }
        }
    }

    /// Whether `r` is what `unwatch` returns: what the watch source returns,
    /// as a failure of the whole where it is one.
    pub open spec fn unwatch_gives(
        self,
        d: Seq<char>,
        outcome: Result<(), String>,
        r: Result<(), Error>,
    ) -> bool {
        match r {
            Ok(_) => self.monitor.unwatch_gives(d, outcome, Ok(())),
            Err(Error::Monitor(e)) => self.monitor.unwatch_gives(d, outcome, Err(e)),
            Err(_) => false,
        }
    }

    /// The engine after `stop`.
    pub open spec fn after_stop(self) -> EngineView {
        EngineView {
            phase: if self.phase == Phase::Stopped {
                Phase::Stopped
            } else {
                Phase::Draining
            },
            ..self
        }
    }

    /// Whether nothing is left to apply and nothing will be pulled any more.
    pub open spec fn finished(self) -> bool {
        self.phase == Phase::Stopped || (self.phase == Phase::Draining && !self.has_pending())
    }

    /// What `next_action` asks of the caller.
    pub open spec fn action(self) -> ActionView {
        if self.finished() {
            if self.monitor.roots.len() > 0 {
                ActionView::Release(self.monitor.roots.last())
            } else {
                ActionView::Halt
            }
        } else if self.current.len() > 0 {
            ActionView::Apply(self.current[0])
        } else if self.queued.len() > 0 {
            ActionView::Apply(self.queued[0][0])
        } else if self.phase == Phase::Watching {
            ActionView::Pull
        } else {
            ActionView::Idle
        }
    }

    /// The engine after `next_action`.  Where the event in hand has no change
    /// left, the event that has waited longest becomes the event in hand.
    pub open spec fn after_action(self) -> EngineView {
        if self.finished() {
            EngineView { phase: Phase::Stopped, monitor: self.monitor.after_release(), ..self }
        } else if self.current.len() > 0 {
            EngineView { current: self.current.drop_first(), ..self }
        } else if self.queued.len() > 0 {
            EngineView {
                current: self.queued[0].drop_first(),
                queued: self.queued.drop_first(),
                ..self
            }
        } else {
            self
        }
    }

    /// What `on_received` returns.  The end of the stream is no failure.
    pub open spec fn received_result(self, received: Received) -> Result<(), Error> {
        match self.monitor.get_result(received) {
            Ok(_) => Ok(()),
            Err(MonitorError::Sync) => Ok(()),
            Err(e) => Err(Error::Monitor(e)),
        }
    }

    /// The engine after `on_received`.
    pub open spec fn after_received(self, received: Received) -> EngineView {
        let monitor = self.monitor.after_get(received);
        match self.monitor.get_result(received) {
            Ok(Some(ev)) => EngineView {
                monitor,
                queued: if self.phase == Phase::Stopped || translation(ev@).len() == 0 {
                    self.queued
                } else {
                    self.queued.push(translation(ev@))
                },
                ..self
            },
            Err(MonitorError::Sync) => EngineView { monitor, ..self.after_stop() },
            _ => EngineView { monitor, ..self },
        }
    }

    /// What `on_written` returns.
    pub open spec fn written_result(written: Written) -> Result<(), Error> {
        match Fdb::settle_spec(written) {
            Ok(_) => Ok(()),
            Err(e) => Err(Error::DB(e)),
        }
    }

    /// The engine after `on_written`: a change that failed takes what is left
    /// of its own event with it, and nothing of any other.
    pub open spec fn after_written(self, written: Written) -> EngineView {
        if Fdb::settle_spec(written) is Ok {
            self
        } else {
            EngineView { current: seq![], ..self }
        }
    }
}

/// The sync engine: it owns the watch source and the index store and decides
/// what is done next.
#[derive(Debug)]
pub struct SyncEngine {
    monitor: Monitor,
    fdb: Fdb,
    phase: Phase,
    current: Vec<Change>,
    queued: Vec<Batch>,
}

impl View for SyncEngine {
    type V = EngineView;

    closed spec fn view(&self) -> EngineView {
        EngineView {
            phase: self.phase,
            monitor: self.monitor@,
            current: change_views(self.current@),
            queued: batch_views(self.queued@),
        }
    }
}

impl SyncEngine {
    /// The index store that the engine writes to.
    pub closed spec fn store(&self) -> Fdb {
        self.fdb
    }

    /// Every event that waits in an engine has a change to make.
    pub proof fn lemma_wf(&self)
        ensures
            self@.wf(),
    {
    }

    /// An engine over a watch source and an index store, with no event in
    /// hand.
    pub fn new(monitor: Monitor, fdb: Fdb) -> (engine: SyncEngine)
        ensures
            engine@ == (EngineView {
                phase: EngineView::initial_phase(monitor@),
                monitor: monitor@,
                current: seq![],
                queued: seq![],
            }),
            engine.store() == fdb,
    {
        let phase = if monitor.is_closed() {
            Phase::Stopped
        } else if monitor.watched().len() > 0 {
            Phase::Watching
        } else {
            Phase::Unwatched
        };
        let engine = SyncEngine { monitor, fdb, phase, current: Vec::new(), queued: Vec::new() };
        assert(change_views(engine.current@) =~= seq![]);
        assert(batch_views(engine.queued@) =~= seq![]);
        engine
    }

    /// Where the engine stands in its life.
    pub fn phase(&self) -> (phase: Phase)
        ensures
            phase == self@.phase,
    {
        self.phase
    }

    /// The watch source.
    pub fn monitor(&self) -> (monitor: &Monitor)
        ensures
            monitor@ == self@.monitor,
    {
        &self.monitor
    }

    /// The index store.
    pub fn fdb(&self) -> (fdb: &Fdb)
        ensures
            *fdb == self.store(),
    {
        &self.fdb
    }

    /// Whether a change has not been handed out yet.
    pub fn has_pending(&self) -> (r: bool)
        ensures
            r == self@.has_pending(),
    {
        self.current.len() > 0 || self.queued.len() > 0
    }

    /// Puts the root `d` under observation, given the outcome of asking the
    /// watch facility to observe it.  The first root that is accepted sets
    /// the engine to watching.  Once a stop was asked for no root is accepted
    /// any more, and the call fails as a pull from an ended stream does.
    pub fn watch(&mut self, d: &str, outcome: Result<(), String>) -> (r: Result<(), Error>)
        ensures
            r == old(self)@.watch_result(d@, outcome),
            final(self)@ == old(self)@.after_watch(d@, outcome),
            final(self).store() == old(self).store(),
    {
        match self.phase {
            Phase::Draining => Err(Error::Monitor(MonitorError::Sync)),
            Phase::Stopped => Err(Error::Monitor(MonitorError::Sync)),
            _ => match self.monitor.watch(d, outcome) {
                Ok(_) => {
                    self.phase = Phase::Watching;
                    Ok(())
                },
                Err(e) => Err(Error::Monitor(e)),
            },
        }
    }

    /// Takes the root `d` out of observation, given the outcome of asking the
    /// watch facility to release it.  The phase stays as it is.
    pub fn unwatch(&mut self, d: &str, outcome: Result<(), String>) -> (r: Result<(), Error>)
        ensures
            old(self)@.unwatch_gives(d@, outcome, r),
            final(self)@ == (EngineView {
                monitor: old(self)@.monitor.after_unwatch(d@, outcome),
                ..old(self)@
            }),
            final(self).store() == old(self).store(),
    {
        match self.monitor.unwatch(d, outcome) {
            Ok(_) => Ok(()),
            Err(e) => Err(Error::Monitor(e)),
        }
    }

    /// Records the outcome of asking the watch facility for fine-grained event
    /// kinds.
    pub fn set_precise(&mut self, outcome: Result<bool, String>) -> (r: Result<bool, Error>)
        ensures
            r == match MonitorView::set_precise_result(outcome) {
                Ok(granted) => Ok::<bool, Error>(granted),
                Err(e) => Err(Error::Monitor(e)),
            },
            final(self)@ == (EngineView {
                monitor: old(self)@.monitor.after_set_precise(outcome),
                ..old(self)@
            }),
            final(self).store() == old(self).store(),
    {
        match self.monitor.set_precise(outcome) {
            Ok(granted) => Ok(granted),
            Err(e) => Err(Error::Monitor(e)),
        }
    }

    /// Asks the engine to stop.  It pulls no event from now on; the events
    /// that it has taken in are still applied.
    pub fn stop(&mut self)
        ensures
            final(self)@ == old(self)@.after_stop(),
            final(self).store() == old(self).store(),
    {
        match self.phase {
            Phase::Stopped => {},
            _ => {
                self.phase = Phase::Draining;
            },
        }
    }

    /// Decides what the caller has to do next.
    ///
    /// While changes are pending they are handed out first to last, also
    /// after a stop was asked for: an event that was pulled is applied to the
    /// end.  With nothing pending, a watching engine asks for a pull, and one
    /// that is draining stops.  A stopped engine hands back its roots for
    /// release, last accepted first, and then halts for good.
    pub fn next_action(&mut self) -> (action: Action)
        ensures
            action@ == old(self)@.action(),
            final(self)@ == old(self)@.after_action(),
            final(self).store() == old(self).store(),
    {
        let finished = match self.phase {
            Phase::Stopped => true,
            Phase::Draining => !self.has_pending(),
            _ => false,
        };
        if finished {
            self.phase = Phase::Stopped;
            match self.monitor.release() {
                Some(root) => Action::Release(root),
                None => Action::Halt,
            }
        } else if self.current.len() > 0 {
            proof {
                assert(change_views(self.current@.remove(0)) =~= change_views(
                    self.current@,
                ).drop_first());
            }
            let change = self.current.remove(0);
            Action::Apply(change)
        } else if self.queued.len() > 0 {
            proof {
                assert(batch_views(self.queued@.remove(0)) =~= batch_views(
                    self.queued@,
                ).drop_first());
                assert(self.queued@[0]@.drop_first() =~= change_views(self.queued@[0].rest@));
            }
            let batch = self.queued.remove(0);
            self.current = batch.rest;
            Action::Apply(batch.first)
        } else {
            match self.phase {
                Phase::Watching => Action::Pull,
                _ => Action::Idle,
            }
        }
    }

    /// Takes in what the caller pulled from the channel of notifications.
    ///
    /// An event waits behind those taken in before it, unless the engine has
    /// stopped.  A notification that stands for no event, and a failure that
    /// the watch facility delivered, change nothing; the failure is handed
    /// back for report.  The end of the stream is no failure: it stops the
    /// engine as `stop` does.
    pub fn on_received(&mut self, received: Received) -> (r: Result<(), Error>)
        ensures
            r == old(self)@.received_result(received),
            final(self)@ == old(self)@.after_received(received),
            final(self).store() == old(self).store(),
    {
        match self.monitor.get(received) {
            Ok(Some(ev)) => {
                match self.phase {
                    Phase::Stopped => {},
                    _ => {
                        let mut changes = translate(&self.fdb, &ev);
                        if changes.len() > 0 {
                            let ghost all = changes@;
                            let first = changes.remove(0);
                            let batch = Batch { first, rest: changes };
                            proof {
                                assert(batch@ =~= change_views(all));
                                assert(batch_views(self.queued@.push(batch)) =~= batch_views(
                                    self.queued@,
                                ).push(batch@));
                            }
                            self.queued.push(batch);
                        }
                    },
                }
                Ok(())
            },
            Ok(None) => Ok(()),
            Err(MonitorError::Sync) => {
                self.stop();
                Ok(())
            },
            Err(e) => Err(Error::Monitor(e)),
        }
    }

    /// Takes in the backend's answer to the change that was handed out last.
    ///
    /// A failure is handed back for report and costs the event of that change
    /// what was left of it.  It costs no other event anything, and it never
    /// stops the engine: the next event is taken up as if nothing had
    /// happened.
    pub fn on_written(&mut self, written: Written) -> (r: Result<(), Error>)
        ensures
            r == EngineView::written_result(written),
            final(self)@ == old(self)@.after_written(written),
            final(self).store() == old(self).store(),
    {
        match self.fdb.settle(written) {
            Ok(_) => Ok(()),
            Err(e) => {
                self.current.clear();
                assert(change_views(self.current@) =~= seq![]);
                Err(Error::DB(e))
            },
        }
    }
}

/// The index after a healthy backend has made the changes of the event `ev`.
pub open spec fn apply_event(index: Index, ev: WatchEventView) -> Index {
    apply_changes(index, translation(ev))
}

/// The index after a healthy backend has made the changes of the events
/// `evs`, first to last.
pub open spec fn apply_events(index: Index, evs: Seq<WatchEventView>) -> Index
    decreases evs.len(),
{
    if evs.len() == 0 {
        index
    } else {
        apply_event(apply_events(index, evs.drop_last()), evs.last())
    }
}

/// What the index holds under `key`, if anything.
pub open spec fn lookup(index: Index, key: Seq<char>) -> Option<Seq<char>> {
    if index.contains_key(key) {
        Some(index[key])
    } else {
        None
    }
}

/// Whether the event `ev` speaks of the key `key`: one of its paths is filed
/// under it.
pub open spec fn touches(ev: WatchEventView, key: Seq<char>) -> bool {
    ev.wf() && exists|i: int| 0 <= i < ev.paths.len() && final_segment(#[trigger] ev.paths[i]) == key
}

/// What the index holds under `key` once the event `ev`, which speaks of
/// `key`, has been applied: the event alone decides it.
pub open spec fn verdict(ev: WatchEventView, key: Seq<char>) -> Option<Seq<char>> {
    match ev.kind {
        EventKind::Create => Some(ev.paths[0]),
        EventKind::Modify => Some(ev.paths[0]),
        EventKind::Remove => None,
        EventKind::Rename => if final_segment(ev.paths[1]) == key {
            Some(ev.paths[1])
        } else {
            None
        },
    }
}

/// The effect of an event, written out for each kind.
pub proof fn lemma_apply_event(index: Index, ev: WatchEventView)
    ensures
        !ev.wf() ==> apply_event(index, ev) == index,
        ev.wf() ==> apply_event(index, ev) == match ev.kind {
            EventKind::Create => index.insert(final_segment(ev.paths[0]), ev.paths[0]),
            EventKind::Modify => index.insert(final_segment(ev.paths[0]), ev.paths[0]),
            EventKind::Remove => index.remove(final_segment(ev.paths[0])),
            EventKind::Rename => index.remove(final_segment(ev.paths[0])).insert(
                final_segment(ev.paths[1]),
                ev.paths[1],
            ),
        },
{
    let cs = translation(ev);
    if cs.len() == 1 {
        assert(cs.drop_last() =~= seq![]);
        assert(apply_changes(index, cs.drop_last()) == index);
    } else if cs.len() == 2 {
        let first = cs.drop_last();
        assert(first =~= seq![cs[0]]);
        assert(first.drop_last() =~= seq![]);
        assert(apply_changes(index, first.drop_last()) == index);
        assert(apply_changes(index, first) == apply_change(index, cs[0]));
    }
}

/// An event that speaks of a key decides what the index holds under it,
/// whatever the index held before.
pub proof fn lemma_event_decides(index: Index, ev: WatchEventView, key: Seq<char>)
    requires
        touches(ev, key),
    ensures
        lookup(apply_event(index, ev), key) == verdict(ev, key),
{
    lemma_apply_event(index, ev);
}

/// Idempotence: an event applied twice leaves the index as the event applied
/// once does.  A repeated creation is an overwrite with the same record, a
/// repeated removal finds nothing to remove, and a repeated rename finds the
/// old key gone and files the new one again.
pub proof fn law_event_idempotent(index: Index, ev: WatchEventView)
    ensures
        apply_event(apply_event(index, ev), ev) == apply_event(index, ev),
{
    let once = apply_event(index, ev);
    lemma_apply_event(index, ev);
    lemma_apply_event(once, ev);
    assert(apply_event(once, ev) =~= once);
}

/// Convergence: of two runs of events over any two indexes, if both end with
/// the same event and that event speaks of `key`, both leave the same record,
/// or none, under `key`.  So the events before the last may be repeated,
/// dropped or put in another order without a change to what `key` holds.
pub proof fn law_last_event_decides(
    a: Index,
    b: Index,
    xs: Seq<WatchEventView>,
    ys: Seq<WatchEventView>,
    key: Seq<char>,
)
    requires
        xs.len() > 0,
        ys.len() > 0,
        xs.last() == ys.last(),
        touches(xs.last(), key),
    ensures
        lookup(apply_events(a, xs), key) == lookup(apply_events(b, ys), key),
        lookup(apply_events(a, xs), key) == verdict(xs.last(), key),
{
    lemma_event_decides(apply_events(a, xs.drop_last()), xs.last(), key);
    lemma_event_decides(apply_events(b, ys.drop_last()), ys.last(), key);
}

/// A rename files the new location under the new key whether or not the old
/// key still held a record, and leaves nothing under the old key unless it is
/// the new key too.
pub proof fn law_rename_files_new_key(index: Index, ev: WatchEventView)
    requires
        ev.wf(),
        ev.kind == EventKind::Rename,
    ensures
        lookup(apply_event(index, ev), final_segment(ev.paths[1])) == Some(ev.paths[1]),
        final_segment(ev.paths[0]) != final_segment(ev.paths[1]) ==> lookup(
            apply_event(index, ev),
            final_segment(ev.paths[0]),
        ) is None,
{
    lemma_apply_event(index, ev);
}

/// Self-healing: a change to a file is filed exactly as its creation is, so a
/// change to a file that the index does not know creates its record.
pub proof fn law_modify_is_create(index: Index, path: Seq<char>)
    ensures
        apply_event(index, WatchEventView { kind: EventKind::Modify, paths: seq![path] })
            == apply_event(index, WatchEventView { kind: EventKind::Create, paths: seq![path] }),
        lookup(
            apply_event(index, WatchEventView { kind: EventKind::Modify, paths: seq![path] }),
            final_segment(path),
        ) == Some(path),
{
    lemma_apply_event(index, WatchEventView { kind: EventKind::Modify, paths: seq![path] });
    lemma_apply_event(index, WatchEventView { kind: EventKind::Create, paths: seq![path] });
}

/// An event leaves every key of which it does not speak as it was.
pub proof fn law_event_is_local(index: Index, ev: WatchEventView, key: Seq<char>)
    requires
        !touches(ev, key),
    ensures
        lookup(apply_event(index, ev), key) == lookup(index, key),
{
    lemma_apply_event(index, ev);
    if ev.wf() {
        assert(final_segment(ev.paths[0]) != key);
        if ev.kind == EventKind::Rename {
            assert(final_segment(ev.paths[1]) != key);
        }
    }
}

/// Order across keys: two events that speak of no common key may be applied
/// in either order, and the index ends up the same.
pub proof fn law_disjoint_events_commute(index: Index, e1: WatchEventView, e2: WatchEventView)
    requires
        forall|key: Seq<char>| !(touches(e1, key) && touches(e2, key)),
    ensures
        apply_event(apply_event(index, e1), e2) == apply_event(apply_event(index, e2), e1),
{
    let left = apply_event(apply_event(index, e1), e2);
    let right = apply_event(apply_event(index, e2), e1);
    assert forall|key: Seq<char>| lookup(left, key) == lookup(right, key) by {
        if touches(e1, key) {
            law_event_is_local(apply_event(index, e1), e2, key);
            law_event_is_local(index, e2, key);
            lemma_event_decides(index, e1, key);
            lemma_event_decides(apply_event(index, e2), e1, key);
        } else if touches(e2, key) {
            law_event_is_local(apply_event(index, e2), e1, key);
            law_event_is_local(index, e1, key);
            lemma_event_decides(index, e2, key);
            lemma_event_decides(apply_event(index, e1), e2, key);
        } else {
            law_event_is_local(apply_event(index, e1), e2, key);
            law_event_is_local(index, e1, key);
            law_event_is_local(apply_event(index, e2), e1, key);
            law_event_is_local(index, e2, key);
        }
    }
    assert forall|key: Seq<char>| left.contains_key(key) == right.contains_key(key) by {
        assert(lookup(left, key) == lookup(right, key));
    }
    assert forall|key: Seq<char>| left.contains_key(key) implies left[key] == right[key] by {
        assert(lookup(left, key) == lookup(right, key));
    }
    assert(left =~= right);
}

/// Forward only: whatever happens to the engine, its phase never moves back.
pub proof fn law_phase_moves_forward(
    v: EngineView,
    d: Seq<char>,
    outcome: Result<(), String>,
    received: Received,
    written: Written,
)
    ensures
        v.phase.rank() <= v.after_watch(d, outcome).phase.rank(),
        v.phase.rank() <= v.after_stop().phase.rank(),
        v.phase.rank() <= v.after_action().phase.rank(),
        v.phase.rank() <= v.after_received(received).phase.rank(),
        v.phase.rank() <= v.after_written(written).phase.rank(),
{
}

/// Terminal: a stopped engine stays stopped, takes in no event, accepts no
/// root, and asks for nothing but the release of its roots.
pub proof fn law_stopped_is_terminal(
    v: EngineView,
    d: Seq<char>,
    outcome: Result<(), String>,
    received: Received,
    written: Written,
)
    requires
        v.phase == Phase::Stopped,
    ensures
        v.after_watch(d, outcome) == v,
        v.watch_result(d, outcome) is Err,
        v.after_stop() == v,
        v.after_action().phase == Phase::Stopped,
        v.after_received(received).phase == Phase::Stopped,
        v.after_received(received).current == v.current,
        v.after_received(received).queued == v.queued,
        v.after_written(written).phase == Phase::Stopped,
        v.action() is Release || v.action() is Halt,
        v.action() is Halt <==> v.monitor.roots.len() == 0,
{
}

/// In order: while the engine has not stopped, what it hands out is the first
/// of the pending changes, and the others stay pending in their order.
pub proof fn law_changes_go_out_in_order(v: EngineView)
    requires
        v.wf(),
        v.phase != Phase::Stopped,
        v.has_pending(),
    ensures
        v.pending().len() > 0,
        v.action() == ActionView::Apply(v.pending()[0]),
        v.after_action().pending() == v.pending().drop_first(),
        v.after_action().phase == v.phase,
        v.after_action().wf(),
{
    if v.current.len() == 0 {
        let head = v.queued[0];
        assert(head.len() > 0);
        assert(v.queued.flatten() == head + v.queued.drop_first().flatten());
        assert(v.current + v.queued.flatten() =~= head + v.queued.drop_first().flatten());
        assert(v.after_action().pending() =~= v.pending().drop_first());
        assert forall|i: int| 0 <= i < v.queued.drop_first().len() implies (
        #[trigger] v.queued.drop_first()[i]).len() > 0 by {
            assert(v.queued.drop_first()[i] == v.queued[i + 1]);
        }
    } else {
        assert(v.after_action().pending() =~= v.pending().drop_first());
    }
}

/// No partial application: a stop changes nothing of what is pending, and the
/// engine does not stop, nor ask for a pull, before all of it has been handed
/// out.
pub proof fn law_stop_drains(v: EngineView)
    requires
        v.phase == Phase::Watching || v.phase == Phase::Unwatched || v.phase == Phase::Draining,
    ensures
        v.after_stop().phase == Phase::Draining,
        v.after_stop().current == v.current,
        v.after_stop().queued == v.queued,
        v.has_pending() ==> v.after_stop().action() is Apply && v.after_stop().after_action().phase
            == Phase::Draining,
        !v.has_pending() ==> v.after_stop().after_action().phase == Phase::Stopped,
        !(v.after_stop().action() is Pull),
{
}

/// The end is reached: once a stop was asked for, every action but the halt
/// uses up one pending change or one root, so that the halt comes after as
/// many actions as there are pending changes and roots.
pub proof fn law_shutdown_ends(v: EngineView)
    requires
        v.wf(),
        v.phase == Phase::Draining || v.phase == Phase::Stopped,
    ensures
        v.action() is Halt <==> v.finished() && v.monitor.roots.len() == 0,
        v.action() is Halt ==> v.after_action() == (EngineView { phase: Phase::Stopped, ..v }),
        !(v.action() is Halt) ==> v.after_action().pending().len()
            + v.after_action().monitor.roots.len() + 1 == v.pending().len() + v.monitor.roots.len(),
        v.after_action().phase == Phase::Draining || v.after_action().phase == Phase::Stopped,
{
    if !v.finished() {
        law_changes_go_out_in_order(v);
    }
}

/// Failure isolation: a change that the backend could not make costs its own
/// event what was left of it and no other event anything, and leaves the phase
/// and the watch source as they were.  A watching engine with no other event
/// waiting asks for the next one right away.
pub proof fn law_storage_failure_is_isolated(v: EngineView, written: Written)
    requires
        !(written is Done),
    ensures
        EngineView::written_result(written) is Err,
        v.after_written(written).queued == v.queued,
        v.after_written(written).current.len() == 0,
        v.after_written(written).pending() == v.queued.flatten(),
        v.after_written(written).phase == v.phase,
        v.after_written(written).monitor == v.monitor,
        v.phase == Phase::Watching && v.queued.len() == 0 ==> v.after_written(written).action() is Pull,
        v.phase != Phase::Stopped && v.queued.len() > 0 ==> v.after_written(written).action()
            == ActionView::Apply(v.queued[0][0]),
{
    assert(Seq::<ChangeView>::empty() + v.queued.flatten() =~= v.queued.flatten());
}

/// In full: an engine that takes in an event holds the changes of that event
/// behind all that was pending, so that a healthy backend that makes what is
/// handed out ends up, once the event's turn has come, with the index that
/// the event calls for.
pub proof fn law_event_is_queued(v: EngineView, received: Received, ev: WatchEvent, index: Index)
    requires
        v.wf(),
        v.phase != Phase::Stopped,
        v.monitor.get_result(received) == Ok::<Option<WatchEvent>, MonitorError>(Some(ev)),
    ensures
        v.after_received(received).pending() == v.pending() + translation(ev@),
        v.after_received(received).current == v.current,
        v.after_received(received).phase == v.phase,
        v.after_received(received).wf(),
        !v.has_pending() ==> apply_changes(index, v.after_received(received).pending())
            == apply_event(index, ev@),
{
    broadcast use Seq::lemma_flatten_push;

    let t = translation(ev@);
    let after = v.after_received(received);
    if t.len() == 0 {
        assert(v.pending() + t =~= v.pending());
    } else {
        assert(v.queued.push(t).flatten() =~= v.queued.flatten() + t);
        assert(after.pending() =~= v.pending() + t);
        assert forall|i: int| 0 <= i < after.queued.len() implies (#[trigger] after.queued[i]).len()
            > 0 by {
            if i < v.queued.len() {
                assert(after.queued[i] == v.queued[i]);
            }
        }
    }
    if !v.has_pending() {
        assert(v.queued =~= Seq::empty());
        assert(v.pending() =~= Seq::empty());
        assert(after.pending() =~= t);
    }
}

} // verus!
