//! The outbound event coalescer: status events are forwarded at once, merged
//! over a window, or throttled, depending on their name.
//!
//! The coalescer owns no clock and emits nothing. The caller tells it the
//! time in milliseconds, emits what [`EventBuffer::handle_event`] returns at
//! once, and emits what [`EventBuffer::sweep`] returns on its periodic sweep.

use vstd::prelude::*;
use crate::text::{chars_of, starts_with, str_eq, string_of};

verus! {

/// The period of the sweep, in milliseconds.
pub const SWEEP_PERIOD_MS: u64 = 1000;

/// The merge window of events whose name is not known, in milliseconds.
pub const DEFAULT_MERGE_WINDOW_MS: u64 = 500;

/// An event on its way to the presentation layer. The payload is JSON text.
#[derive(Debug, Clone, PartialEq, Eq)]
pub struct BridgeEventData {
    pub event: String,
    pub payload: String,
}

/// How events of one name are delivered. Durations are milliseconds.
#[derive(Debug, Clone, Copy, PartialEq, Eq, Structural)]
pub enum EventBufferStrategy {
    /// Forwarded as they come.
    Immediate,
    /// Held back; only the latest of a window is sent.
    DelayedMerge(u64),
    /// The first of an interval is sent, the latest of the rest later.
    Throttle(u64),
}

/// An event as contracts see it.
pub struct EventView {
    pub event: Seq<char>,
    pub payload: Seq<char>,
}

impl View for BridgeEventData {
    type V = EventView;

    open spec fn view(&self) -> EventView {
        EventView { event: self.event@, payload: self.payload@ }
    }
}

/// A buffered event: the latest payload of its name, when it came, how many
/// came since the entry was made, and whether the payload still waits to be
/// sent. An entry whose payload was sent at once only marks the time.
pub struct BufferedEvent {
    data: BridgeEventData,
    last_time: u64,
    count: u32,
    pending: bool,
}

/// A buffered event as contracts see it.
pub struct BufferedView {
    pub data: EventView,
    pub last_time: u64,
    pub count: u32,
    /// The payload was not sent yet.
    pub pending: bool,
}

impl View for BufferedEvent {
    type V = BufferedView;

    closed spec fn view(&self) -> BufferedView {
        BufferedView {
            data: self.data@,
            last_time: self.last_time,
            count: self.count,
            pending: self.pending,
        }
    }
}

/// The delivery strategy of an event name.
pub open spec fn strategy_of(name: Seq<char>) -> EventBufferStrategy {
    if name == "error-occurred"@ || name == "system-status"@ || name == "model-status-changed"@
        || name == "tagging-model-missing"@ || name == "multivector-started"@ || name
        == "multivector-completed"@ || name == "multivector-failed"@ || name
        == "oauth-login-success"@ || name == "model-download-completed"@ || name
        == "model-download-failed"@ || name == "tool-call-request"@ || name
        == "tool-call-response"@ || name == "tool-call-error"@ || name == "rag-retrieval-result"@
        || name == "rag-error"@ {
        EventBufferStrategy::Immediate
    } else if name == "tags-updated"@ || name == "database-updated"@ {
        EventBufferStrategy::DelayedMerge(5000)
    } else if name == "task-completed"@ {
        EventBufferStrategy::DelayedMerge(2000)
    } else if name == "file-tagging-progress"@ || name == "multivector-progress"@ || name
        == "model-download-progress"@ {
        EventBufferStrategy::Throttle(1000)
    } else if name == "screening-result-updated"@ {
        EventBufferStrategy::Throttle(5000)
    } else if name == "file-processed"@ {
        EventBufferStrategy::Throttle(2000)
    } else if name == "rag-progress"@ {
        EventBufferStrategy::Throttle(500)
    } else {
        EventBufferStrategy::DelayedMerge(DEFAULT_MERGE_WINDOW_MS)
    }
}

/// How old a buffered event of this name must be for the sweep to send it,
/// in milliseconds: the window of its strategy.
pub open spec fn flush_window_of(name: Seq<char>) -> u64 {
    match strategy_of(name) {
        EventBufferStrategy::Immediate => 0,
        EventBufferStrategy::DelayedMerge(window) => window,
        EventBufferStrategy::Throttle(interval) => interval,
    }
}

/// The age at `now` of something last touched at `then`; never negative.
pub open spec fn age(now: u64, then: u64) -> int {
    if now >= then {
        now - then
    } else {
        0
    }
}

/// This entry is as old at `now` as the window of its name.
pub open spec fn expired(entry: BufferedView, now: u64) -> bool {
    age(now, entry.last_time) >= flush_window_of(entry.data.event)
}

/// The events that a sweep at `now` sends, in buffer order: the payloads
/// that are as old as their window and still wait. A payload that was sent
/// at once is not sent again.
pub open spec fn swept(entries: Seq<BufferedView>, now: u64) -> Seq<EventView>
    decreases entries.len(),
{
    if entries.len() == 0 {
        Seq::empty()
    } else if expired(entries.last(), now) && entries.last().pending {
        swept(entries.drop_last(), now).push(entries.last().data)
    } else {
        swept(entries.drop_last(), now)
    }
}

/// A payload is sent once: a sweep over entries of which none waits sends
/// nothing, however old they are. So a throttled event that was emitted at
/// once and had no successor is never emitted a second time.
pub proof fn lemma_nothing_pending_nothing_swept(entries: Seq<BufferedView>, now: u64)
    requires
        forall|i: int| 0 <= i < entries.len() ==> !(#[trigger] entries[i]).pending,
    ensures
        swept(entries, now).len() == 0,
    decreases entries.len(),
{
    if entries.len() > 0 {
        let rest = entries.drop_last();
        assert forall|i: int| 0 <= i < rest.len() implies !(#[trigger] rest[i]).pending by {
            assert(rest[i] == entries[i]);
        }
        lemma_nothing_pending_nothing_swept(rest, now);
    }
}

/// The entries that a sweep at `now` leaves, in buffer order.
pub open spec fn unswept(entries: Seq<BufferedView>, now: u64) -> Seq<BufferedView>
    decreases entries.len(),
{
    if entries.len() == 0 {
        Seq::empty()
    } else if expired(entries.last(), now) {
        unswept(entries.drop_last(), now)
    } else {
        unswept(entries.drop_last(), now).push(entries.last())
    }
}

/// The entry for `name`, if the buffer has one.
pub open spec fn entry_of(entries: Seq<BufferedView>, name: Seq<char>) -> Option<BufferedView> {
    if exists|i: int| 0 <= i < entries.len() && (#[trigger] entries[i]).data.event == name {
        Some(
            entries[choose|i: int|
                0 <= i < entries.len() && (#[trigger] entries[i]).data.event == name],
        )
    } else {
        None
    }
}

/// `after` is `before` with the entry of `entry`'s name replaced by `entry`
/// in place, or with `entry` appended where the name had none.
pub open spec fn upserted(before: Seq<BufferedView>, after: Seq<BufferedView>, entry: BufferedView) -> bool {
    ||| exists|i: int|
        0 <= i < before.len() && (#[trigger] before[i]).data.event == entry.data.event && after
            == before.update(i, entry)
    ||| (forall|i: int| 0 <= i < before.len() ==> (#[trigger] before[i]).data.event
        != entry.data.event) && after == before.push(entry)
}

/// The views of a list of events.
pub open spec fn event_views(v: Seq<BridgeEventData>) -> Seq<EventView> {
    v.map_values(|e: BridgeEventData| e@)
}

/// The delivery strategy of events called `name`.
pub fn strategy_for(name: &str) -> (out: EventBufferStrategy)
    ensures
        out == strategy_of(name@),
{
    if str_eq(name, "error-occurred") || str_eq(name, "system-status") || str_eq(
        name,
        "model-status-changed",
    ) || str_eq(name, "tagging-model-missing") || str_eq(name, "multivector-started") || str_eq(
        name,
        "multivector-completed",
    ) || str_eq(name, "multivector-failed") || str_eq(name, "oauth-login-success") || str_eq(
        name,
        "model-download-completed",
    ) || str_eq(name, "model-download-failed") || str_eq(name, "tool-call-request") || str_eq(
        name,
        "tool-call-response",
    ) || str_eq(name, "tool-call-error") || str_eq(name, "rag-retrieval-result") || str_eq(
        name,
        "rag-error",
    ) {
        EventBufferStrategy::Immediate
    } else if str_eq(name, "tags-updated") || str_eq(name, "database-updated") {
        EventBufferStrategy::DelayedMerge(5000)
    } else if str_eq(name, "task-completed") {
        EventBufferStrategy::DelayedMerge(2000)
    } else if str_eq(name, "file-tagging-progress") || str_eq(name, "multivector-progress")
        || str_eq(name, "model-download-progress") {
        EventBufferStrategy::Throttle(1000)
    } else if str_eq(name, "screening-result-updated") {
        EventBufferStrategy::Throttle(5000)
    } else if str_eq(name, "file-processed") {
        EventBufferStrategy::Throttle(2000)
    } else if str_eq(name, "rag-progress") {
        EventBufferStrategy::Throttle(500)
    } else {
        EventBufferStrategy::DelayedMerge(DEFAULT_MERGE_WINDOW_MS)
    }
}

/// How old a buffered event called `name` must be for the sweep to send it.
pub fn flush_window_ms(name: &str) -> (out: u64)
    ensures
        out == flush_window_of(name@),
{
    match strategy_for(name) {
        EventBufferStrategy::Immediate => 0,
        EventBufferStrategy::DelayedMerge(window) => window,
        EventBufferStrategy::Throttle(interval) => interval,
    }
}

/// A copy of an event.
pub fn copy_event(event: &BridgeEventData) -> (out: BridgeEventData)
    ensures
        out == *event,
{
    BridgeEventData { event: event.event.clone(), payload: event.payload.clone() }
}

/// The coalescer's buffer: at most one entry per event name.
pub struct EventBuffer {
    buffered_events: Vec<BufferedEvent>,
}

impl EventBuffer {
    /// The buffered entries, in the order in which their names came first.
    pub closed spec fn entries(&self) -> Seq<BufferedView> {
        self.buffered_events@.map_values(|e: BufferedEvent| e@)
    }

    /// No event name has two entries.
    pub open spec fn wf(&self) -> bool {
        forall|i: int, j: int|
            0 <= i < j < self.entries().len() ==> (#[trigger] self.entries()[i]).data.event != (
            #[trigger] self.entries()[j]).data.event
    }

    /// How many events of this name came since its entry was made; zero
    /// without an entry.
    pub open spec fn occurrences(&self, name: Seq<char>) -> int {
        match entry_of(self.entries(), name) {
            Some(e) => e.count as int,
            None => 0,
        }
    }

    /// An empty buffer.
    pub fn new() -> (out: EventBuffer)
        ensures
            out.wf(),
            out.entries().len() == 0,
    {
        let out = EventBuffer { buffered_events: Vec::new() };
        assert(out.entries() =~= Seq::<BufferedView>::empty());
        out
    }

    /// How many entries the buffer holds.
    pub fn len(&self) -> (n: usize)
        ensures
            n == self.entries().len(),
    {
        self.buffered_events.len()
    }

    fn position(&self, name: &str) -> (out: Option<usize>)
        ensures
            match out {
                Some(i) => i < self.entries().len() && self.entries()[i as int].data.event
                    == name@,
                None => forall|i: int|
                    0 <= i < self.entries().len() ==> (#[trigger] self.entries()[i]).data.event
                        != name@,
            },
    {
        let mut i: usize = 0;
        while i < self.buffered_events.len()
            invariant
                i <= self.buffered_events.len(),
                forall|j: int| 0 <= j < i ==> (#[trigger] self.entries()[j]).data.event != name@,
            decreases self.buffered_events.len() - i,
        {
            assert(self.entries()[i as int] == self.buffered_events@[i as int]@);
            if str_eq(self.buffered_events[i].data.event.as_str(), name) {
                return Some(i);
            }
            i += 1;
        }
        None
    }

    /// How many events called `name` came since its entry was made.
    pub fn occurrence_count(&self, name: &str) -> (n: u32)
        requires
            self.wf(),
        ensures
            n == self.occurrences(name@),
    {
        match self.position(name) {
            Some(i) => {
                assert(self.entries()[i as int] == self.buffered_events@[i as int]@);
                proof {
                    let c = choose|c: int|
                        0 <= c < self.entries().len() && (#[trigger] self.entries()[c]).data.event
                            == name@;
                    assert(c == i);
                }
                self.buffered_events[i].count
            },
            None => 0,
        }
    }

    /// Takes in one event at time `now_ms` and returns it if it is to be
    /// emitted at once.
    ///
    /// An immediate event is returned and leaves no trace. A merged event is
    /// held back: it replaces what the buffer holds for its name and waits
    /// for the sweep. A throttled event is returned when its name has no
    /// entry or the entry is at least one interval old; the entry then only
    /// marks the time and nothing waits. Otherwise the event replaces the
    /// entry and waits for the sweep.
    pub fn handle_event(&mut self, event_data: BridgeEventData, now_ms: u64) -> (out: Option<
        BridgeEventData,
    >)
        requires
            old(self).wf(),
            old(self).occurrences(event_data@.event) < u32::MAX,
        ensures
            final(self).wf(),
            match strategy_of(event_data@.event) {
                EventBufferStrategy::Immediate => {
                    &&& out == Some(event_data)
                    &&& final(self).entries() == old(self).entries()
                },
                EventBufferStrategy::DelayedMerge(_) => {
                    &&& out is None
                    &&& upserted(
                        old(self).entries(),
                        final(self).entries(),
                        BufferedView {
                            data: event_data@,
                            last_time: now_ms,
                            count: (old(self).occurrences(event_data@.event) + 1) as u32,
                            pending: true,
                        },
                    )
                },
                EventBufferStrategy::Throttle(interval) => {
                    if entry_of(old(self).entries(), event_data@.event) is Some && age(
                        now_ms,
                        entry_of(old(self).entries(), event_data@.event)->0.last_time,
                    ) < interval {
                        &&& out is None
                        &&& upserted(
                            old(self).entries(),
                            final(self).entries(),
                            BufferedView {
                                data: event_data@,
                                last_time: now_ms,
                                count: (old(self).occurrences(event_data@.event) + 1) as u32,
                                pending: true,
                            },
                        )
                    } else {
                        &&& out is Some
                        &&& out->0@ == event_data@
                        &&& upserted(
                            old(self).entries(),
                            final(self).entries(),
                            BufferedView {
                                data: event_data@,
                                last_time: now_ms,
                                count: 1,
                                pending: false,
                            },
                        )
                    }
                },
            },
    {
        let strategy = strategy_for(event_data.event.as_str());
        let position = self.position(event_data.event.as_str());
        proof {
            if position is Some {
                let c = choose|c: int|
                    0 <= c < self.entries().len() && (#[trigger] self.entries()[c]).data.event
                        == event_data@.event;
                assert(c == position->0);
            }
        }
        let ghost before = self.entries();
        match strategy {
            EventBufferStrategy::Immediate => Some(event_data),
            EventBufferStrategy::DelayedMerge(_) => {
                match position {
                    Some(i) => {
                        assert(before[i as int] == self.buffered_events@[i as int]@);
                        let count = self.buffered_events[i].count + 1;
                        let entry = BufferedEvent {
                            data: event_data,
                            last_time: now_ms,
                            count,
                            pending: true,
                        };
                        self.buffered_events[i] = entry;
                        assert(self.entries() =~= before.update(i as int, entry@));
                    },
                    None => {
                        let entry = BufferedEvent {
                            data: event_data,
                            last_time: now_ms,
                            count: 1,
                            pending: true,
                        };
                        self.buffered_events.push(entry);
                        assert(self.entries() =~= before.push(entry@));
                    },
                }
                None
            },
            EventBufferStrategy::Throttle(interval) => {
                match position {
                    Some(i) => {
                        assert(before[i as int] == self.buffered_events@[i as int]@);
                        let last = self.buffered_events[i].last_time;
                        let elapsed = if now_ms >= last {
                            now_ms - last
                        } else {
                            0
                        };
                        if elapsed < interval {
                            let count = self.buffered_events[i].count + 1;
                            let entry = BufferedEvent {
                                data: event_data,
                                last_time: now_ms,
                                count,
                                pending: true,
                            };
                            self.buffered_events[i] = entry;
                            assert(self.entries() =~= before.update(i as int, entry@));
                            None
                        } else {
                            let out = copy_event(&event_data);
                            let entry = BufferedEvent {
                                data: event_data,
                                last_time: now_ms,
                                count: 1,
                                pending: false,
                            };
                            self.buffered_events[i] = entry;
                            assert(self.entries() =~= before.update(i as int, entry@));
                            Some(out)
                        }
                    },
                    None => {
                        let out = copy_event(&event_data);
                        let entry = BufferedEvent {
                            data: event_data,
                            last_time: now_ms,
                            count: 1,
                            pending: false,
                        };
                        self.buffered_events.push(entry);
                        assert(self.entries() =~= before.push(entry@));
                        Some(out)
                    },
                }
            },
        }
    }

    /// The periodic sweep at time `now_ms`: every entry that is as old as the
    /// flush window of its name leaves the buffer, and its payload is
    /// returned for emission if it still waits; the other entries stay.
    pub fn sweep(&mut self, now_ms: u64) -> (out: Vec<BridgeEventData>)
        requires
            old(self).wf(),
        ensures
            final(self).wf(),
            event_views(out@) == swept(old(self).entries(), now_ms),
            final(self).entries() == unswept(old(self).entries(), now_ms),
    {
        let ghost before = self.entries();
        let mut all: Vec<BufferedEvent> = Vec::new();
        std::mem::swap(&mut all, &mut self.buffered_events);
        let mut out: Vec<BridgeEventData> = Vec::new();
        let mut kept: Vec<BufferedEvent> = Vec::new();
        let ghost mut origin: Seq<int> = Seq::empty();
        assert(before.take(0) =~= Seq::<BufferedView>::empty());
        assert(event_views(out@) =~= Seq::<EventView>::empty());
        assert(kept@.map_values(|e: BufferedEvent| e@) =~= Seq::<BufferedView>::empty());
        let n = all.len();
        let mut i: usize = 0;
        while i < n
            invariant
                i <= n,
                n == all.len(),
                before.len() == n,
                forall|j: int| i <= j < n ==> all@[j]@ == before[j],
                event_views(out@) == swept(before.take(i as int), now_ms),
                kept@.map_values(|e: BufferedEvent| e@) == unswept(before.take(i as int), now_ms),
                origin.len() == kept@.len(),
                forall|k: int|
                    0 <= k < origin.len() ==> 0 <= #[trigger] origin[k] < i && kept@[k]@
                        == before[origin[k]],
                forall|k: int, l: int| 0 <= k < l < origin.len() ==> origin[k] < origin[l],
            decreases n - i,
        {
            assert(before.take(i + 1).drop_last() =~= before.take(i as int));
            assert(before.take(i + 1).last() == before[i as int]);
            let mut entry = BufferedEvent {
                data: BridgeEventData { event: String::new(), payload: String::new() },
                last_time: 0,
                count: 0,
                pending: false,
            };
            std::mem::swap(&mut entry, &mut all[i]);
            let window = flush_window_ms(entry.data.event.as_str());
            let elapsed = if now_ms >= entry.last_time {
                now_ms - entry.last_time
            } else {
                0
            };
            if elapsed >= window {
                if entry.pending {
                    let ghost sent = event_views(out@);
                    out.push(entry.data);
                    assert(event_views(out@) =~= sent.push(before[i as int].data));
                }
            } else {
                let ghost held = kept@.map_values(|e: BufferedEvent| e@);
                kept.push(entry);
                proof {
                    origin = origin.push(i as int);
                }
                assert(kept@.map_values(|e: BufferedEvent| e@) =~= held.push(before[i as int]));
            }
            i += 1;
        }
        assert(before.take(n as int) =~= before);
        self.buffered_events = kept;
        assert forall|a: int, b: int| 0 <= a < b < self.entries().len() implies (
        #[trigger] self.entries()[a]).data.event != (#[trigger] self.entries()[b]).data.event by {
            assert(self.entries()[a] == before[origin[a]]);
            assert(self.entries()[b] == before[origin[b]]);
        }
        out
    }
}

/// What `str::trim` returns for a string with these characters.
pub uninterp spec fn trimmed(s: Seq<char>) -> Seq<char>;

/// `str::trim`: `s` without leading and trailing whitespace. The contract
/// only names the result; the whitespace of Unicode is not restated.
#[verifier::external_body]
fn trim<'a>(s: &'a str) -> (out: &'a str)
    ensures
        out@ == trimmed(s@),
{
    s.trim()
}

/// What marks a line of the worker's output as an event.
pub open spec fn event_prefix() -> Seq<char> {
    "EVENT_NOTIFY_JSON:"@
}

/// The JSON text of an event line: what follows the event prefix. A line
/// that does not start with the prefix is no event.
pub fn strip_event_prefix(line: &str) -> (out: Option<String>)
    ensures
        match out {
            Some(json) => line@ == event_prefix() + json@,
            None => !event_prefix().is_prefix_of(line@),
        },
{
    let chars = chars_of(line);
    let prefix = chars_of("EVENT_NOTIFY_JSON:");
    if !starts_with(chars.as_slice(), prefix.as_slice()) {
        return None;
    }
    let rest = &chars.as_slice()[prefix.len()..chars.len()];
    assert(line@ =~= event_prefix() + rest@);
    Some(string_of(rest))
}

/// The JSON text of an event in a line of the worker's output, surrounding
/// whitespace aside.
pub fn bridge_event_json(line: &str) -> (out: Option<String>)
    ensures
        match out {
            Some(json) => trimmed(line@) == event_prefix() + json@,
            None => !event_prefix().is_prefix_of(trimmed(line@)),
        },
{
    strip_event_prefix(trim(line))
}

} // verus!
