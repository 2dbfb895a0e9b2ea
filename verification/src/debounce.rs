//! The debounce stage of a directory watch.
//!
//! Raw filesystem notifications are noisy. Each one is reduced to "added" or
//! "removed", buffered by path so that the last one for a path wins, and
//! handed on when the watch ticks or stops.

use vstd::prelude::*;
use crate::bundle::{default_bundle_extensions, is_bundle_folder, is_macos_bundle_folder, PathProbe};
use crate::text::str_eq;

verus! {

/// A change as the pipeline sees it.
#[derive(Debug, Clone, PartialEq, Eq)]
pub enum SimpleFileEvent {
    /// The path appeared: created or moved in.
    Added(String),
    /// The path went away: deleted or moved out.
    Removed(String),
}

/// The two kinds of change.
#[derive(Debug, Clone, Copy, PartialEq, Eq, Structural)]
pub enum ChangeKind {
    Added,
    Removed,
}

/// What the operating system reported.
#[derive(Debug, Clone, Copy, PartialEq, Eq, Structural)]
pub enum RawEventKind {
    Create,
    Remove,
    /// A rename, seen from the old name.
    RenameFrom,
    /// A rename, seen from the new name.
    RenameTo,
    /// A rename with both names known; the path is the new name.
    RenameBoth,
    /// Anything else.
    Other,
}

/// A change as contracts see it.
pub struct ChangeView {
    pub path: Seq<char>,
    pub kind: ChangeKind,
}

impl View for SimpleFileEvent {
    type V = ChangeView;

    open spec fn view(&self) -> ChangeView {
        match self {
            SimpleFileEvent::Added(p) => ChangeView { path: p@, kind: ChangeKind::Added },
            SimpleFileEvent::Removed(p) => ChangeView { path: p@, kind: ChangeKind::Removed },
        }
    }
}

impl SimpleFileEvent {
    /// The path that changed.
    pub fn path(&self) -> (out: &String)
        ensures
            out@ == self@.path,
    {
        match self {
            SimpleFileEvent::Added(p) => p,
            SimpleFileEvent::Removed(p) => p,
        }
    }

    /// The kind of change.
    pub fn kind(&self) -> (out: ChangeKind)
        ensures
            out == self@.kind,
    {
        match self {
            SimpleFileEvent::Added(_) => ChangeKind::Added,
            SimpleFileEvent::Removed(_) => ChangeKind::Removed,
        }
    }
}

/// The kind of change that a raw notification stands for. Creations and
/// removals pass through, a rename counts for the side it was seen from, and
/// anything else is decided by whether the path exists now.
pub open spec fn change_kind(raw: RawEventKind, exists: bool) -> ChangeKind {
    match raw {
        RawEventKind::Create => ChangeKind::Added,
        RawEventKind::Remove => ChangeKind::Removed,
        RawEventKind::RenameFrom => ChangeKind::Removed,
        RawEventKind::RenameTo => ChangeKind::Added,
        RawEventKind::RenameBoth => ChangeKind::Added,
        RawEventKind::Other => if exists {
            ChangeKind::Added
        } else {
            ChangeKind::Removed
        },
    }
}

/// Reduces a raw notification to a kind of change.
pub fn classify_event(raw: RawEventKind, exists: bool) -> (out: ChangeKind)
    ensures
        out == change_kind(raw, exists),
{
    match raw {
        RawEventKind::Create => ChangeKind::Added,
        RawEventKind::Remove => ChangeKind::Removed,
        RawEventKind::RenameFrom => ChangeKind::Removed,
        RawEventKind::RenameTo => ChangeKind::Added,
        RawEventKind::RenameBoth => ChangeKind::Added,
        RawEventKind::Other => if exists {
            ChangeKind::Added
        } else {
            ChangeKind::Removed
        },
    }
}

/// The change of `kind` at `path`.
pub fn make_event(path: String, kind: ChangeKind) -> (out: SimpleFileEvent)
    ensures
        out@ == (ChangeView { path: path@, kind }),
{
    match kind {
        ChangeKind::Added => SimpleFileEvent::Added(path),
        ChangeKind::Removed => SimpleFileEvent::Removed(path),
    }
}

/// The views of a list of changes.
pub open spec fn change_views(v: Seq<SimpleFileEvent>) -> Seq<ChangeView> {
    v.map_values(|e: SimpleFileEvent| e@)
}

/// `after` is `before` with the change at `change`'s path replaced by
/// `change` in place, or with `change` appended where the path had none.
pub open spec fn superseded(before: Seq<ChangeView>, after: Seq<ChangeView>, change: ChangeView) -> bool {
    ||| exists|i: int|
        0 <= i < before.len() && (#[trigger] before[i]).path == change.path && after
            == before.update(i, change)
    ||| (forall|i: int| 0 <= i < before.len() ==> (#[trigger] before[i]).path != change.path)
        && after == before.push(change)
}

/// The buffer of a watch: at most one change per path, the last one seen.
pub struct DebounceBuffer {
    pending: Vec<SimpleFileEvent>,
}

impl DebounceBuffer {
    /// The buffered changes, in the order in which their paths came first.
    pub closed spec fn entries(&self) -> Seq<ChangeView> {
        change_views(self.pending@)
    }

    /// No path has two changes.
    pub open spec fn wf(&self) -> bool {
        forall|i: int, j: int|
            0 <= i < j < self.entries().len() ==> (#[trigger] self.entries()[i]).path != (
            #[trigger] self.entries()[j]).path
    }

    /// An empty buffer.
    pub fn new() -> (out: DebounceBuffer)
        ensures
            out.wf(),
            out.entries().len() == 0,
    {
        let out = DebounceBuffer { pending: Vec::new() };
        assert(out.entries() =~= Seq::<ChangeView>::empty());
        out
    }

    /// How many paths have a change waiting.
    pub fn len(&self) -> (n: usize)
        ensures
            n == self.entries().len(),
    {
        self.pending.len()
    }

    /// Notes a change of `kind` at `path`. It supersedes what the buffer
    /// holds for that path.
    pub fn record(&mut self, path: String, kind: ChangeKind)
        requires
            old(self).wf(),
        ensures
            final(self).wf(),
            superseded(
                old(self).entries(),
                final(self).entries(),
                ChangeView { path: path@, kind },
            ),
    {
        let ghost before = self.entries();
        let mut i: usize = 0;
        while i < self.pending.len()
            invariant
                i <= self.pending.len(),
                self.entries() == before,
                before == old(self).entries(),
                forall|a: int, b: int|
                    0 <= a < b < before.len() ==> (#[trigger] before[a]).path != (
                    #[trigger] before[b]).path,
                forall|j: int| 0 <= j < i ==> (#[trigger] before[j]).path != path@,
            decreases self.pending.len() - i,
        {
            assert(before[i as int] == self.pending@[i as int]@);
            if str_eq(self.pending[i].path().as_str(), path.as_str()) {
                let change = make_event(path, kind);
                self.pending[i] = change;
                assert(self.entries() =~= before.update(i as int, change@));
                assert(before[i as int].path == change@.path);
                proof {
                    lemma_last_change_wins(before, self.entries(), change@);
                }
                return ;
            }
            i += 1;
        }
        let change = make_event(path, kind);
        self.pending.push(change);
        assert(self.entries() =~= before.push(change@));
        proof {
            lemma_last_change_wins(before, self.entries(), change@);
        }
    }

    /// Hands out every buffered change and leaves the buffer empty.
    pub fn flush(&mut self) -> (out: Vec<SimpleFileEvent>)
        ensures
            final(self).wf(),
            change_views(out@) == old(self).entries(),
            final(self).entries().len() == 0,
    {
        let mut out: Vec<SimpleFileEvent> = Vec::new();
        std::mem::swap(&mut out, &mut self.pending);
        assert(self.entries() =~= Seq::<ChangeView>::empty());
        out
    }
}

/// The life of a watch on one directory.
#[derive(Debug, Clone, Copy, PartialEq, Eq, Structural)]
pub enum WatchState {
    /// The watch is being installed.
    Starting,
    /// Notifications arrive and are buffered.
    Watching,
    /// A stop was asked for; the buffer is still to be drained.
    Stopping,
    /// The buffer was drained; nothing is taken any more.
    Stopped,
}

/// How a directory is watched.
#[derive(Debug, Clone, Copy, PartialEq, Eq, Structural)]
pub enum WatchMode {
    Recursive,
    NonRecursive,
}

/// A bundle root is watched by itself; any other directory with all below it.
pub fn watch_mode(directory: &str, probe: &PathProbe) -> (out: WatchMode)
    ensures
        out == (if is_bundle_folder(directory@, default_bundle_extensions(), *probe) {
            WatchMode::NonRecursive
        } else {
            WatchMode::Recursive
        }),
{
    if is_macos_bundle_folder(directory, probe) {
        WatchMode::NonRecursive
    } else {
        WatchMode::Recursive
    }
}

/// The debounce stage of the watch on one directory.
pub struct DebouncedWatch {
    state: WatchState,
    buffer: DebounceBuffer,
}

impl DebouncedWatch {
    /// Where the watch stands.
    pub closed spec fn state(&self) -> WatchState {
        self.state
    }

    /// The changes that wait in the buffer.
    pub closed spec fn pending(&self) -> Seq<ChangeView> {
        self.buffer.entries()
    }

    /// The buffer holds one change per path, and none once the watch stopped.
    pub closed spec fn wf(&self) -> bool {
        self.buffer.wf() && (self.state == WatchState::Stopped ==> self.buffer.entries().len()
            == 0)
    }

    /// A watch that is being installed.
    pub fn new() -> (out: DebouncedWatch)
        ensures
            out.wf(),
            out.state() == WatchState::Starting,
            out.pending().len() == 0,
    {
        DebouncedWatch { state: WatchState::Starting, buffer: DebounceBuffer::new() }
    }

    /// Where the watch stands.
    pub fn current_state(&self) -> (out: WatchState)
        ensures
            out == self.state(),
    {
        self.state
    }

    /// How many changes wait in the buffer.
    pub fn pending_count(&self) -> (n: usize)
        ensures
            n == self.pending().len(),
    {
        self.buffer.len()
    }

    /// The installation of the watch ended: a watch that was starting is
    /// watching if it succeeded and stopped if not. Any other watch stays
    /// as it is.
    pub fn installed(&mut self, success: bool)
        requires
            old(self).wf(),
        ensures
            final(self).wf(),
            final(self).state() == (if old(self).state() == WatchState::Starting {
                if success {
                    WatchState::Watching
                } else {
                    WatchState::Stopped
                }
            } else {
                old(self).state()
            }),
            final(self).pending() == (if final(self).state() == WatchState::Stopped {
                Seq::<ChangeView>::empty()
            } else {
                old(self).pending()
            }),
    {
        match self.state {
            WatchState::Starting => {
                if success {
                    self.state = WatchState::Watching;
                } else {
                    let _ = self.buffer.flush();
                    self.state = WatchState::Stopped;
                    assert(self.pending() =~= Seq::<ChangeView>::empty());
                }
            },
            WatchState::Stopped => {
                assert(self.pending() =~= Seq::<ChangeView>::empty());
            },
            _ => {},
        }
    }

    /// A raw notification for `path`. Unless the watch has stopped, the
    /// change it stands for supersedes what the buffer holds for the path.
    pub fn on_raw_event(&mut self, path: String, raw: RawEventKind, exists: bool)
        requires
            old(self).wf(),
        ensures
            final(self).wf(),
            final(self).state() == old(self).state(),
            if old(self).state() == WatchState::Stopped {
                final(self).pending() == old(self).pending()
            } else {
                superseded(
                    old(self).pending(),
                    final(self).pending(),
                    ChangeView { path: path@, kind: change_kind(raw, exists) },
                )
            },
    {
        match self.state {
            WatchState::Stopped => {},
            _ => {
                self.buffer.record(path, classify_event(raw, exists));
            },
        }
    }

    /// A tick of the watch: every buffered change is handed on, each path
    /// with the last change seen for it.
    pub fn on_tick(&mut self) -> (out: Vec<SimpleFileEvent>)
        requires
            old(self).wf(),
        ensures
            final(self).wf(),
            final(self).state() == old(self).state(),
            change_views(out@) == old(self).pending(),
            final(self).pending().len() == 0,
    {
        self.buffer.flush()
    }

    /// A stop is asked for: a watch that is starting or watching is stopping.
    pub fn request_stop(&mut self)
        requires
            old(self).wf(),
        ensures
            final(self).wf(),
            final(self).pending() == old(self).pending(),
            final(self).state() == (match old(self).state() {
                WatchState::Starting => WatchState::Stopping,
                WatchState::Watching => WatchState::Stopping,
                other => other,
            }),
    {
        match self.state {
            WatchState::Starting => {
                self.state = WatchState::Stopping;
            },
            WatchState::Watching => {
                self.state = WatchState::Stopping;
            },
            _ => {},
        }
    }

    /// The watch looks at its stop flag: a stopping watch drains its buffer
    /// one last time and is stopped; any other watch hands on nothing.
    pub fn poll_stop(&mut self) -> (out: Vec<SimpleFileEvent>)
        requires
            old(self).wf(),
        ensures
            final(self).wf(),
            if old(self).state() == WatchState::Stopping {
                &&& final(self).state() == WatchState::Stopped
                &&& change_views(out@) == old(self).pending()
                &&& final(self).pending().len() == 0
            } else {
                &&& final(self).state() == old(self).state()
                &&& out@.len() == 0
                &&& final(self).pending() == old(self).pending()
            },
    {
        match self.state {
            WatchState::Stopping => {
                self.state = WatchState::Stopped;
                self.buffer.flush()
            },
            _ => Vec::new(),
        }
    }
}

/// The state of a watch after a stop was asked for.
pub open spec fn stop_requested(state: WatchState) -> WatchState {
    match state {
        WatchState::Starting => WatchState::Stopping,
        WatchState::Watching => WatchState::Stopping,
        other => other,
    }
}

/// The watches of a monitor, old and new. A watch is known by its index.
/// Starting a new set of watches asks every earlier watch to stop first, so
/// that no two sets are live at a time.
pub struct WatchSet {
    watches: Vec<DebouncedWatch>,
}

impl WatchSet {
    /// How many watches the set has seen.
    pub closed spec fn count(&self) -> int {
        self.watches@.len() as int
    }

    /// Where watch `id` stands.
    pub closed spec fn state_at(&self, id: int) -> WatchState {
        self.watches@[id].state()
    }

    /// The changes that wait in the buffer of watch `id`.
    pub closed spec fn pending_at(&self, id: int) -> Seq<ChangeView> {
        self.watches@[id].pending()
    }

    /// Every watch of the set is well-formed.
    pub closed spec fn wf(&self) -> bool {
        forall|i: int| 0 <= i < self.watches@.len() ==> (#[trigger] self.watches@[i]).wf()
    }

    /// Every watch but `id` is as it was.
    pub closed spec fn others_kept(&self, before: &WatchSet, id: int) -> bool {
        &&& self.watches@.len() == before.watches@.len()
        &&& forall|i: int|
            0 <= i < self.watches@.len() && i != id ==> #[trigger] self.watches@[i]
                == before.watches@[i]
    }

    /// A set without watches.
    pub fn new() -> (out: WatchSet)
        ensures
            out.wf(),
            out.count() == 0,
    {
        WatchSet { watches: Vec::new() }
    }

    /// How many watches the set has seen.
    pub fn len(&self) -> (n: usize)
        ensures
            n == self.count(),
    {
        self.watches.len()
    }

    /// Where watch `id` stands.
    pub fn state_of(&self, id: usize) -> (out: WatchState)
        requires
            id < self.count(),
        ensures
            out == self.state_at(id as int),
    {
        self.watches[id].current_state()
    }

    /// Asks every watch to stop. Each watch drains its buffer when it next
    /// looks at its stop flag.
    pub fn stop_monitoring(&mut self)
        requires
            old(self).wf(),
        ensures
            final(self).wf(),
            final(self).count() == old(self).count(),
            forall|i: int|
                0 <= i < old(self).count() ==> #[trigger] final(self).state_at(i)
                    == stop_requested(old(self).state_at(i)) && final(self).pending_at(i) == old(
                    self,
                ).pending_at(i),
    {
        let n = self.watches.len();
        let mut i: usize = 0;
        while i < n
            invariant
                i <= n,
                n == self.watches@.len(),
                n == old(self).watches@.len(),
                self.wf(),
                forall|j: int|
                    0 <= j < i ==> #[trigger] self.state_at(j) == stop_requested(
                        old(self).state_at(j),
                    ) && self.pending_at(j) == old(self).pending_at(j),
                forall|j: int| i <= j < n ==> #[trigger] self.watches@[j] == old(self).watches@[j],
            decreases n - i,
        {
            let ghost before = *self;
            self.watches[i].request_stop();
            assert forall|j: int| 0 <= j < self.watches@.len() implies (
            #[trigger] self.watches@[j]).wf() by {
                if j != i {
                    assert(self.watches@[j] == before.watches@[j]);
                }
            }
            assert forall|j: int| 0 <= j < i implies #[trigger] self.state_at(j)
                == stop_requested(old(self).state_at(j)) && self.pending_at(j) == old(
                self,
            ).pending_at(j) by {
                assert(self.watches@[j] == before.watches@[j]);
                assert(before.state_at(j) == stop_requested(old(self).state_at(j)));
            }
            i += 1;
        }
    }

    /// Installs `count` new watches after asking every earlier watch to
    /// stop, and returns the index of the first new watch.
    pub fn start_monitoring(&mut self, count: usize) -> (first: usize)
        requires
            old(self).wf(),
        ensures
            final(self).wf(),
            first == old(self).count(),
            final(self).count() == old(self).count() + count,
            forall|i: int|
                0 <= i < old(self).count() ==> #[trigger] final(self).state_at(i)
                    == stop_requested(old(self).state_at(i)) && final(self).pending_at(i) == old(
                    self,
                ).pending_at(i),
            forall|i: int|
                old(self).count() <= i < final(self).count() ==> #[trigger] final(self).state_at(i)
                    == WatchState::Starting && final(self).pending_at(i).len() == 0,
    {
        self.stop_monitoring();
        let first = self.watches.len();
        let ghost stopped = *self;
        let mut k: usize = 0;
        while k < count
            invariant
                k <= count,
                self.wf(),
                first == stopped.watches@.len(),
                self.watches@.len() == first + k,
                forall|j: int| 0 <= j < first ==> #[trigger] self.watches@[j] == stopped.watches@[j],
                forall|j: int|
                    first <= j < first + k ==> #[trigger] self.state_at(j) == WatchState::Starting
                        && self.pending_at(j).len() == 0,
            decreases count - k,
        {
            let ghost before = *self;
            self.watches.push(DebouncedWatch::new());
            assert forall|j: int| 0 <= j < self.watches@.len() implies (
            #[trigger] self.watches@[j]).wf() by {
                if j < before.watches@.len() {
                    assert(self.watches@[j] == before.watches@[j]);
                }
            }
            assert forall|j: int| first <= j < first + k + 1 implies #[trigger] self.state_at(j)
                == WatchState::Starting && self.pending_at(j).len() == 0 by {
                if j < first + k {
                    assert(self.watches@[j] == before.watches@[j]);
                    assert(before.state_at(j) == WatchState::Starting);
                }
            }
            k += 1;
        }
        assert forall|i: int| 0 <= i < old(self).count() implies #[trigger] self.state_at(i)
            == stop_requested(old(self).state_at(i)) && self.pending_at(i) == old(
            self,
        ).pending_at(i) by {
            assert(self.watches@[i] == stopped.watches@[i]);
            assert(stopped.state_at(i) == stop_requested(old(self).state_at(i)));
        }
        first
    }

    /// The installation of watch `id` ended; see [`DebouncedWatch::installed`].
    pub fn installed(&mut self, id: usize, success: bool)
        requires
            old(self).wf(),
            id < old(self).count(),
        ensures
            final(self).wf(),
            final(self).others_kept(old(self), id as int),
            final(self).state_at(id as int) == (if old(self).state_at(id as int)
                == WatchState::Starting {
                if success {
                    WatchState::Watching
                } else {
                    WatchState::Stopped
                }
            } else {
                old(self).state_at(id as int)
            }),
            final(self).pending_at(id as int) == (if final(self).state_at(id as int)
                == WatchState::Stopped {
                Seq::<ChangeView>::empty()
            } else {
                old(self).pending_at(id as int)
            }),
    {
        let ghost before = *self;
        self.watches[id].installed(success);
        assert forall|j: int| 0 <= j < self.watches@.len() implies (#[trigger] self.watches@[j]).wf() by {
            if j != id {
                assert(self.watches@[j] == before.watches@[j]);
            }
        }
    }

    /// A raw notification for watch `id`; see [`DebouncedWatch::on_raw_event`].
    pub fn on_raw_event(&mut self, id: usize, path: String, raw: RawEventKind, exists: bool)
        requires
            old(self).wf(),
            id < old(self).count(),
        ensures
            final(self).wf(),
            final(self).others_kept(old(self), id as int),
            final(self).state_at(id as int) == old(self).state_at(id as int),
            if old(self).state_at(id as int) == WatchState::Stopped {
                final(self).pending_at(id as int) == old(self).pending_at(id as int)
            } else {
                superseded(
                    old(self).pending_at(id as int),
                    final(self).pending_at(id as int),
                    ChangeView { path: path@, kind: change_kind(raw, exists) },
                )
            },
    {
        let ghost before = *self;
        self.watches[id].on_raw_event(path, raw, exists);
        assert forall|j: int| 0 <= j < self.watches@.len() implies (#[trigger] self.watches@[j]).wf() by {
            if j != id {
                assert(self.watches@[j] == before.watches@[j]);
            }
        }
    }

    /// A tick of watch `id`; see [`DebouncedWatch::on_tick`].
    pub fn on_tick(&mut self, id: usize) -> (out: Vec<SimpleFileEvent>)
        requires
            old(self).wf(),
            id < old(self).count(),
        ensures
            final(self).wf(),
            final(self).others_kept(old(self), id as int),
            final(self).state_at(id as int) == old(self).state_at(id as int),
            change_views(out@) == old(self).pending_at(id as int),
            final(self).pending_at(id as int).len() == 0,
    {
        let ghost before = *self;
        let out = self.watches[id].on_tick();
        assert forall|j: int| 0 <= j < self.watches@.len() implies (#[trigger] self.watches@[j]).wf() by {
            if j != id {
                assert(self.watches@[j] == before.watches@[j]);
            }
        }
        out
    }

    /// Watch `id` looks at its stop flag; see [`DebouncedWatch::poll_stop`].
    pub fn poll_stop(&mut self, id: usize) -> (out: Vec<SimpleFileEvent>)
        requires
            old(self).wf(),
            id < old(self).count(),
        ensures
            final(self).wf(),
            final(self).others_kept(old(self), id as int),
            if old(self).state_at(id as int) == WatchState::Stopping {
                &&& final(self).state_at(id as int) == WatchState::Stopped
                &&& change_views(out@) == old(self).pending_at(id as int)
                &&& final(self).pending_at(id as int).len() == 0
            } else {
                &&& final(self).state_at(id as int) == old(self).state_at(id as int)
                &&& out@.len() == 0
                &&& final(self).pending_at(id as int) == old(self).pending_at(id as int)
            },
    {
        let ghost before = *self;
        let out = self.watches[id].poll_stop();
        assert forall|j: int| 0 <= j < self.watches@.len() implies (#[trigger] self.watches@[j]).wf() by {
            if j != id {
                assert(self.watches@[j] == before.watches@[j]);
            }
        }
        out
    }
}

/// Last write wins: after a change is noted for a path, that change is what
/// the buffer holds for the path, the other paths keep theirs, and no path
/// has two.
pub proof fn lemma_last_change_wins(
    before: Seq<ChangeView>,
    after: Seq<ChangeView>,
    change: ChangeView,
)
    requires
        forall|i: int, j: int|
            0 <= i < j < before.len() ==> (#[trigger] before[i]).path != (#[trigger] before[j]).path,
        superseded(before, after, change),
    ensures
        after.contains(change),
        forall|i: int| 0 <= i < after.len() && (#[trigger] after[i]).path == change.path ==> after[i] == change,
        forall|c: ChangeView| c.path != change.path ==> (after.contains(c) <==> before.contains(c)),
        forall|i: int, j: int|
            0 <= i < j < after.len() ==> (#[trigger] after[i]).path != (#[trigger] after[j]).path,
{
    if exists|i: int|
        0 <= i < before.len() && (#[trigger] before[i]).path == change.path && after
            == before.update(i, change) {
        let k = choose|i: int|
            0 <= i < before.len() && (#[trigger] before[i]).path == change.path && after
                == before.update(i, change);
        assert(after[k] == change);
        assert forall|c: ChangeView| c.path != change.path implies (after.contains(c)
            <==> before.contains(c)) by {
            if after.contains(c) {
                let i = choose|i: int| 0 <= i < after.len() && after[i] == c;
                assert(before[i] == c);
            }
            if before.contains(c) {
                let i = choose|i: int| 0 <= i < before.len() && before[i] == c;
                assert(after[i] == c);
            }
        }
        assert forall|i: int, j: int| 0 <= i < j < after.len() implies (#[trigger] after[i]).path
            != (#[trigger] after[j]).path by {
            assert(before[i].path != before[j].path);
        }
    } else {
        assert(after[before.len() as int] == change);
        assert forall|c: ChangeView| c.path != change.path implies (after.contains(c)
            <==> before.contains(c)) by {
            if after.contains(c) {
                let i = choose|i: int| 0 <= i < after.len() && after[i] == c;
                assert(before[i] == c);
            }
            if before.contains(c) {
                let i = choose|i: int| 0 <= i < before.len() && before[i] == c;
                assert(after[i] == c);
            }
        }
        assert forall|i: int, j: int| 0 <= i < j < after.len() implies (#[trigger] after[i]).path
            != (#[trigger] after[j]).path by {
            if j < before.len() {
                assert(before[i].path != before[j].path);
            } else {
                assert(before[i].path != change.path);
            }
        }
    }
}

} // verus!
