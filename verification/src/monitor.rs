//! The watch source: which roots are under observation, and what the
//! notifications that arrive from them mean.
//!
//! The operating system's watch facility is driven by the caller.  This module
//! keeps the set of watched roots in step with what that facility accepted,
//! remembers that the stream of notifications has ended once it has, and
//! reduces the facility's vocabulary ([`Notice`]) to the four kinds of event
//! that the index understands ([`WatchEvent`]).

use vstd::prelude::*;

verus! {

/// What can go wrong in the watch source.
#[derive(Debug)]
pub enum Error {
    /// The watch facility rejected a request or reported a failure; the text
    /// is its report.
    Notify(String),
    /// The stream of notifications has ended.
    Sync,
    /// The watch facility rejected a configuration; the text is its report.
    Config(String),
}

/// What is known of the two ends of a name change.
#[derive(Clone, Copy, Debug, PartialEq, Eq, Structural)]
pub enum RenameMode {
    /// Nothing more than that a name changed.
    Any,
    /// The notification names the new location only.
    To,
    /// The notification names the old location only.
    From,
    /// The notification names the old location, then the new one.
    Both,
    /// Something that fits none of the above.
    Other,
}

/// The watch facility's own classification of a notification.
#[derive(Clone, Copy, Debug, PartialEq, Eq, Structural)]
pub enum NoticeKind {
    /// Unclassified.
    Any,
    /// A file was opened, read or closed.
    Access,
    /// A file or folder came into being.
    Create,
    /// Content or metadata changed.
    Modify,
    /// A name changed.
    Rename(RenameMode),
    /// A file or folder went away.
    Remove,
    /// Something that fits none of the above.
    Other,
}

/// A notification as the watch facility delivered it.
#[derive(Debug)]
pub struct Notice {
    pub kind: NoticeKind,
    pub paths: Vec<String>,
}

/// The kinds of event that the index understands.
#[derive(Clone, Copy, Debug, PartialEq, Eq, Structural)]
pub enum EventKind {
    Create,
    Modify,
    Remove,
    Rename,
}

/// A fact about the filesystem at the time it was emitted.
///
/// `paths` holds one entry for `Create`, `Modify` and `Remove`, and two, the
/// old location and then the new, for `Rename`: see [`WatchEvent::wf`].
#[derive(Debug)]
pub struct WatchEvent {
    pub kind: EventKind,
    pub paths: Vec<String>,
}

/// An event as mathematics.
pub struct WatchEventView {
    pub kind: EventKind,
    pub paths: Seq<Seq<char>>,
}

/// The paths of a notification or an event as character sequences.
pub open spec fn path_views(paths: Seq<String>) -> Seq<Seq<char>> {
    Seq::new(paths.len(), |i: int| paths[i]@)
}

impl View for WatchEvent {
    type V = WatchEventView;

    open spec fn view(&self) -> WatchEventView {
        WatchEventView { kind: self.kind, paths: path_views(self.paths@) }
    }
}

impl WatchEventView {
    /// Whether the event carries as many paths as its kind calls for.
    pub open spec fn wf(self) -> bool {
        self.paths.len() == (if self.kind == EventKind::Rename { 2nat } else { 1nat })
    }
}

/// The kind of event that a notification of kind `kind` with `count` paths
/// stands for, if it stands for one.
///
/// A creation, a change or a removal that names one path is that event.  A
/// name change that names both ends is a rename.  One that names only the old
/// location says that the file is gone from there, and one that names only
/// the new location says that a file has appeared there.  Everything else,
/// and every notification with another number of paths, stands for nothing.
pub open spec fn adapted_kind(kind: NoticeKind, count: nat) -> Option<EventKind> {
    match kind {
        NoticeKind::Create => if count == 1 { Some(EventKind::Create) } else { None },
        NoticeKind::Modify => if count == 1 { Some(EventKind::Modify) } else { None },
        NoticeKind::Remove => if count == 1 { Some(EventKind::Remove) } else { None },
        NoticeKind::Rename(RenameMode::Both) => if count == 2 { Some(EventKind::Rename) } else { None },
        NoticeKind::Rename(RenameMode::From) => if count == 1 { Some(EventKind::Remove) } else { None },
        NoticeKind::Rename(RenameMode::To) => if count == 1 { Some(EventKind::Create) } else { None },
        _ => None,
    }
}

impl Notice {
    /// The event that this notification stands for, if it stands for one.
    pub open spec fn adapted(self) -> Option<WatchEvent> {
        match adapted_kind(self.kind, self.paths@.len()) {
            Some(kind) => Some(WatchEvent { kind, paths: self.paths }),
            None => None,
        }
    }

    /// Reduces the notification to one of the four kinds of event, keeping its
    /// paths, or to nothing where it speaks of no change to a file's
    /// existence, content or name.
    pub fn adapt(self) -> (r: Option<WatchEvent>)
        ensures
            r == self.adapted(),
            r matches Some(e) ==> e@.wf(),
    {
        let count = self.paths.len();
        let kind = match self.kind {
            NoticeKind::Create => if count == 1 { Some(EventKind::Create) } else { None },
            NoticeKind::Modify => if count == 1 { Some(EventKind::Modify) } else { None },
            NoticeKind::Remove => if count == 1 { Some(EventKind::Remove) } else { None },
            NoticeKind::Rename(RenameMode::Both) => if count == 2 { Some(EventKind::Rename) } else { None },
            NoticeKind::Rename(RenameMode::From) => if count == 1 { Some(EventKind::Remove) } else { None },
            NoticeKind::Rename(RenameMode::To) => if count == 1 { Some(EventKind::Create) } else { None },
            _ => None,
        };
        match kind {
            Some(kind) => Some(WatchEvent { kind, paths: self.paths }),
            None => None,
        }
    }
}

/// What came out of the channel of notifications when the caller pulled.
#[derive(Debug)]
pub enum Received {
    /// The watch facility delivered a notification.
    Notice(Notice),
    /// The watch facility delivered a failure of its own; the text is its
    /// report.
    Fault(String),
    /// The channel is closed: no notification will ever come again.
    Disconnected,
}

/// The report of a release that the watch facility let pass although the root
/// was not under observation.
pub open spec fn not_watched_report() -> Seq<char> {
    "No watch was found."@
}

/// The watch source as mathematics.
pub struct MonitorView {
    /// The roots under observation, in the order in which they were accepted.
    pub roots: Seq<Seq<char>>,
    /// Whether the watch facility has applied a request for fine-grained
    /// event kinds.
    pub precise: bool,
    /// Whether the stream of notifications has ended.
    pub closed: bool,
}

impl MonitorView {
    /// The source after the outcome of a request for fine-grained event kinds
    /// has been recorded.
    pub open spec fn after_set_precise(self, outcome: Result<bool, String>) -> MonitorView {
        MonitorView { precise: self.precise || outcome == Ok::<bool, String>(true), ..self }
    }

    /// What `set_precise` returns.
    pub open spec fn set_precise_result(outcome: Result<bool, String>) -> Result<bool, Error> {
        match outcome {
            Ok(_) => Ok(true),
            Err(report) => Err(Error::Config(report)),
        }
    }

    /// The source after `watch`: the root joins the others at the end, unless
    /// it is already one of them or the watch facility refused it.
    pub open spec fn after_watch(self, d: Seq<char>, outcome: Result<(), String>) -> MonitorView {
        if !self.roots.contains(d) && outcome is Ok {
            MonitorView { roots: self.roots.push(d), ..self }
        } else {
            self
        }
    }

    /// What `watch` returns.
    pub open spec fn watch_result(self, d: Seq<char>, outcome: Result<(), String>) -> Result<
        (),
        Error,
    > {
        if self.roots.contains(d) {
            Ok(())
        } else {
            match outcome {
                Ok(_) => Ok(()),
                Err(report) => Err(Error::Notify(report)),
            }
        }
    }

    /// The source after `unwatch`: the root leaves the others, unless it is
    /// none of them or the watch facility refused to release it.
    pub open spec fn after_unwatch(self, d: Seq<char>, outcome: Result<(), String>) -> MonitorView {
        if self.roots.contains(d) && outcome is Ok {
            MonitorView { roots: self.roots.remove(self.roots.index_of(d)), ..self }
        } else {
            self
        }
    }

    /// Whether `r` is what `unwatch` returns.
    ///
    /// A root that is not observed cannot be released, and the failure is
    /// the watch facility's: its own report where it refused, and
    /// [`not_watched_report`] where it raised no objection.
    pub open spec fn unwatch_gives(
        self,
        d: Seq<char>,
        outcome: Result<(), String>,
        r: Result<(), Error>,
    ) -> bool {
        match outcome {
            Err(report) => r == Err::<(), Error>(Error::Notify(report)),
            Ok(_) => if self.roots.contains(d) {
                r == Ok::<(), Error>(())
            } else {
                r matches Err(Error::Notify(report)) && report@ == not_watched_report()
            },
        }
    }

    /// The source after `release`: without its most recently accepted root.
    pub open spec fn after_release(self) -> MonitorView {
        if self.roots.len() > 0 {
            MonitorView { roots: self.roots.drop_last(), ..self }
        } else {
            self
        }
    }

    /// The source after `get`: the stream has ended once the channel was
    /// found closed.
    pub open spec fn after_get(self, received: Received) -> MonitorView {
        MonitorView { closed: self.closed || received is Disconnected, ..self }
    }

    /// What `get` returns.
    pub open spec fn get_result(self, received: Received) -> Result<Option<WatchEvent>, Error> {
        if self.closed {
            Err(Error::Sync)
        } else {
            match received {
                Received::Notice(notice) => Ok(notice.adapted()),
                Received::Fault(report) => Err(Error::Notify(report)),
                Received::Disconnected => Err(Error::Sync),
            }
        }
    }
}

/// The watch source.
#[derive(Debug)]
pub struct Monitor {
    roots: Vec<String>,
    precise: bool,
    closed: bool,
}

impl View for Monitor {
    type V = MonitorView;

    closed spec fn view(&self) -> MonitorView {
        MonitorView { roots: path_views(self.roots@), precise: self.precise, closed: self.closed }
    }
}

impl Monitor {
    /// No root is under observation twice.
    #[verifier::type_invariant]
    spec fn distinct_roots(&self) -> bool {
        path_views(self.roots@).no_duplicates()
    }

    /// A watch source that observes nothing yet.
    pub fn new() -> (m: Monitor)
        ensures
            m@ == (MonitorView { roots: Seq::empty(), precise: false, closed: false }),
    {
        let m = Monitor { roots: Vec::new(), precise: false, closed: false };
        assert(path_views(m.roots@) =~= Seq::empty());
        m
    }

    /// The position of `d` among the roots, if it is one of them.
    fn position(&self, d: &String) -> (r: Option<usize>)
        ensures
            self@.roots.no_duplicates(),
            match r {
                Some(i) => i < self@.roots.len() && self@.roots[i as int] == d@,
                None => !self@.roots.contains(d@),
            },
    {
        proof {
            use_type_invariant(self);
        }
        let mut i: usize = 0;
        while i < self.roots.len()
            invariant
                i <= self.roots.len(),
                path_views(self.roots@).no_duplicates(),
                forall|j: int| 0 <= j < i ==> path_views(self.roots@)[j] != d@,
            decreases self.roots.len() - i,
        {
            if self.roots[i] == *d {
                return Some(i);
            }
            i += 1;
        }
        None
    }

    /// Whether `d` is under observation.
    pub fn is_watched(&self, d: &str) -> (r: bool)
        ensures
            r == self@.roots.contains(d@),
    {
        let owned = d.to_owned();
        self.position(&owned).is_some()
    }

    /// Whether fine-grained event kinds have been granted.
    pub fn is_precise(&self) -> (r: bool)
        ensures
            r == self@.precise,
    {
        self.precise
    }

    /// Whether the stream of notifications has ended.
    pub fn is_closed(&self) -> (r: bool)
        ensures
            r == self@.closed,
    {
        self.closed
    }

    /// The roots under observation, in the order in which they were accepted.
    /// No root occurs twice.
    pub fn watched(&self) -> (r: Vec<String>)
        ensures
            path_views(r@) == self@.roots,
            self@.roots.no_duplicates(),
    {
        proof {
            use_type_invariant(self);
        }
        let mut r: Vec<String> = Vec::new();
        let mut i: usize = 0;
        while i < self.roots.len()
            invariant
                i <= self.roots.len(),
                r@.len() == i,
                forall|j: int| 0 <= j < i ==> r@[j]@ == self.roots@[j]@,
            decreases self.roots.len() - i,
        {
            r.push(self.roots[i].clone());
            i += 1;
        }
        assert(path_views(r@) =~= path_views(self.roots@));
        r
    }

    /// Records the outcome of asking the watch facility for fine-grained event
    /// kinds.  A call that the facility accepted succeeds, and the source is
    /// precise from then on if the facility says that it applied the option.
    /// A refusal leaves the source as it was.
    pub fn set_precise(&mut self, outcome: Result<bool, String>) -> (r: Result<bool, Error>)
        ensures
            r == MonitorView::set_precise_result(outcome),
            final(self)@ == old(self)@.after_set_precise(outcome),
    {
        match outcome {
            Ok(applied) => {
                if applied {
                    proof {
                        use_type_invariant(&*self);
                    }
                    self.precise = true;
                }
                Ok(true)
            },
            Err(report) => Err(Error::Config(report)),
        }
    }

    /// Puts the root `d` under observation, given the outcome of asking the
    /// watch facility to observe it.
    ///
    /// A root that is already observed stays so, whatever the outcome says:
    /// watching it again changes nothing and succeeds.
    pub fn watch(&mut self, d: &str, outcome: Result<(), String>) -> (r: Result<(), Error>)
        ensures
            r == old(self)@.watch_result(d@, outcome),
            final(self)@ == old(self)@.after_watch(d@, outcome),
    {
        let owned = d.to_owned();
        if self.position(&owned).is_some() {
            return Ok(());
        }
        match outcome {
            Ok(_) => {
                proof {
                    use_type_invariant(&*self);
                    assert(path_views(self.roots@.push(owned)) =~= path_views(self.roots@).push(d@));
                    assert(path_views(Seq::<String>::empty()) =~= Seq::empty());
                }
                let mut roots: Vec<String> = Vec::new();
                core::mem::swap(&mut self.roots, &mut roots);
                roots.push(owned);
                core::mem::swap(&mut self.roots, &mut roots);
                Ok(())
            },
            Err(report) => Err(Error::Notify(report)),
        }
    }

    /// Takes the root `d` out of observation, given the outcome of asking the
    /// watch facility to release it.
    ///
    /// A release that the facility refused is reported with the facility's
    /// words and leaves the roots as they were.  A root that is not observed
    /// cannot be released: that too is reported as the facility's failure,
    /// also where the facility raised no objection.
    pub fn unwatch(&mut self, d: &str, outcome: Result<(), String>) -> (r: Result<(), Error>)
        ensures
            old(self)@.unwatch_gives(d@, outcome, r),
            final(self)@ == old(self)@.after_unwatch(d@, outcome),
            r is Ok ==> !final(self)@.roots.contains(d@),
    {
        let owned = d.to_owned();
        let found = self.position(&owned);
        match outcome {
            Err(report) => Err(Error::Notify(report)),
            Ok(_) => match found {
                None => Err(Error::Notify("No watch was found.".to_owned())),
                Some(i) => {
                    proof {
                        use_type_invariant(&*self);
                        let before = path_views(self.roots@);
                        assert(before.index_of(d@) == i);
                        assert(path_views(self.roots@.remove(i as int)) =~= before.remove(i as int));
                        assert(before.remove(i as int).no_duplicates());
                        assert(!before.remove(i as int).contains(d@));
                        assert(path_views(Seq::<String>::empty()) =~= Seq::empty());
                    }
                    let mut roots: Vec<String> = Vec::new();
                    core::mem::swap(&mut self.roots, &mut roots);
                    roots.remove(i);
                    core::mem::swap(&mut self.roots, &mut roots);
                    Ok(())
                },
            },
        }
    }

    /// Takes the most recently accepted root out of the set and hands it
    /// back, or hands back nothing where no root is observed.
    pub fn release(&mut self) -> (r: Option<String>)
        ensures
            final(self)@ == old(self)@.after_release(),
            match r {
                Some(d) => old(self)@.roots.len() > 0 && d@ == old(self)@.roots.last(),
                None => old(self)@.roots.len() == 0,
            },
    {
        proof {
            use_type_invariant(&*self);
            if self.roots@.len() > 0 {
                assert(path_views(self.roots@.drop_last()) =~= path_views(self.roots@).drop_last());
            }
            assert(path_views(Seq::<String>::empty()) =~= Seq::empty());
        }
        let mut roots: Vec<String> = Vec::new();
        core::mem::swap(&mut self.roots, &mut roots);
        let last = roots.pop();
        core::mem::swap(&mut self.roots, &mut roots);
        last
    }

    /// The next event, given what the caller pulled from the channel of
    /// notifications.
    ///
    /// A notification that stands for no event gives `Ok(None)`: the caller
    /// pulls again.  Once the channel has been found closed the stream has
    /// ended for good, and every later call fails with `Sync`.
    pub fn get(&mut self, received: Received) -> (r: Result<Option<WatchEvent>, Error>)
        ensures
            r == old(self)@.get_result(received),
            r matches Ok(Some(e)) ==> e@.wf(),
            final(self)@ == old(self)@.after_get(received),
    {
        if self.closed {
            return Err(Error::Sync);
        }
        match received {
            Received::Notice(notice) => Ok(notice.adapt()),
            Received::Fault(report) => Err(Error::Notify(report)),
            Received::Disconnected => {
                proof {
                    use_type_invariant(&*self);
                }
                self.closed = true;
                Err(Error::Sync)
            },
        }
    }
}

} // verus!
