//! The batch accumulator: accepted records are buffered and handed out in
//! batches, by size or by time.
//!
//! The accumulator owns no clock and sends nothing. The caller tells it the
//! time in milliseconds and submits what it hands out. A batch that was
//! handed out is gone from the buffer whether or not its submission succeeds.

use vstd::prelude::*;
use crate::cache::{extension_allowed, passes_whitelist};
use crate::config::{ExtensionMapView, FileExtensionMapRust};
use crate::metadata::{FileMetadata, MetadataView};
use crate::text::{chars_of, contains, contains_seq};

verus! {

/// How many records a batch holds unless configured otherwise.
pub const DEFAULT_BATCH_SIZE: usize = 50;

/// How many milliseconds a record waits at most unless configured otherwise.
pub const DEFAULT_BATCH_INTERVAL_MS: u64 = 10_000;

/// How many records the channel in front of the accumulator holds.
pub const METADATA_CHANNEL_CAPACITY: usize = 100;

/// Why the accumulator does not forward a record.
#[derive(Debug, Clone, Copy, PartialEq, Eq, Structural)]
pub enum SkipReason {
    Hidden,
    RuleExcluded,
    InvalidExtension,
    DsStore,
    Directory,
}

/// Counters of the accumulator.
#[derive(Debug, Clone, Copy, PartialEq, Eq, Structural)]
pub struct BatchProcessorStats {
    pub received_files: u64,
    pub hidden_files_skipped: u64,
    pub rule_excluded_files_skipped: u64,
    pub invalid_extension_skipped: u64,
    pub ds_store_skipped: u64,
    pub directory_skipped: u64,
    pub bundle_skipped: u64,
    pub processed_files: u64,
}

impl BatchProcessorStats {
    /// Every received record was either skipped for one reason or processed.
    pub open spec fn balanced(self) -> bool {
        self.received_files == self.hidden_files_skipped + self.rule_excluded_files_skipped
            + self.invalid_extension_skipped + self.ds_store_skipped + self.directory_skipped
            + self.processed_files
    }

    /// The counters after one more record, skipped for `reason` or processed.
    pub open spec fn counted(self, reason: Option<SkipReason>) -> BatchProcessorStats {
        let received = BatchProcessorStats {
            received_files: (self.received_files + 1) as u64,
            ..self
        };
        match reason {
            Some(SkipReason::Hidden) => BatchProcessorStats {
                hidden_files_skipped: (self.hidden_files_skipped + 1) as u64,
                ..received
            },
            Some(SkipReason::RuleExcluded) => BatchProcessorStats {
                rule_excluded_files_skipped: (self.rule_excluded_files_skipped + 1) as u64,
                ..received
            },
            Some(SkipReason::InvalidExtension) => BatchProcessorStats {
                invalid_extension_skipped: (self.invalid_extension_skipped + 1) as u64,
                ..received
            },
            Some(SkipReason::DsStore) => BatchProcessorStats {
                ds_store_skipped: (self.ds_store_skipped + 1) as u64,
                ..received
            },
            Some(SkipReason::Directory) => BatchProcessorStats {
                directory_skipped: (self.directory_skipped + 1) as u64,
                ..received
            },
            None => BatchProcessorStats {
                processed_files: (self.processed_files + 1) as u64,
                ..received
            },
        }
    }
}

/// Why a record is not forwarded, if it is not. Bundles pass the extension
/// whitelist; nothing else exempts them.
pub open spec fn skip_reason(m: MetadataView, maps: Seq<ExtensionMapView>) -> Option<SkipReason> {
    if m.is_hidden {
        Some(SkipReason::Hidden)
    } else if m.is_excluded() {
        Some(SkipReason::RuleExcluded)
    } else if !m.is_dir && !m.is_bundle() && !passes_whitelist(maps, m.extension) {
        Some(SkipReason::InvalidExtension)
    } else if contains_seq(m.file_name, ".DS_Store"@) {
        Some(SkipReason::DsStore)
    } else if m.is_dir {
        Some(SkipReason::Directory)
    } else {
        None
    }
}

/// The views of a list of records.
pub open spec fn records(v: Seq<FileMetadata>) -> Seq<MetadataView> {
    v.map_values(|m: FileMetadata| m@)
}

/// Why `metadata` is not forwarded, if it is not.
pub fn check_record(metadata: &FileMetadata, maps: &Vec<FileExtensionMapRust>) -> (out: Option<
    SkipReason,
>)
    ensures
        out == skip_reason(metadata@, maps@.map_values(|m: FileExtensionMapRust| m@)),
{
    if metadata.is_hidden {
        return Some(SkipReason::Hidden);
    }
    if metadata.is_excluded() {
        return Some(SkipReason::RuleExcluded);
    }
    if !metadata.is_dir && !metadata.is_bundle() && !extension_allowed(maps, &metadata.extension) {
        return Some(SkipReason::InvalidExtension);
    }
    let name = chars_of(metadata.file_name.as_str());
    let ds_store = chars_of(".DS_Store");
    if contains(name.as_slice(), ds_store.as_slice()) {
        return Some(SkipReason::DsStore);
    }
    if metadata.is_dir {
        return Some(SkipReason::Directory);
    }
    None
}

/// Where a record goes: into the queue in front of the accumulator, or, when
/// there is no queue, straight to the service as a batch of one.
#[derive(Debug, Clone)]
pub enum Delivery {
    /// Hand the record to the accumulator's queue.
    Queue(FileMetadata),
    /// Submit this batch directly.
    Direct(Vec<FileMetadata>),
}

/// Chooses the sink of a record. No record is lost: with a queue it is
/// queued, without one it is submitted by itself.
pub fn route_record(metadata: FileMetadata, queue_available: bool) -> (out: Delivery)
    ensures
        match out {
            Delivery::Queue(m) => queue_available && m == metadata,
            Delivery::Direct(batch) => !queue_available && batch@ == seq![metadata],
        },
{
    if queue_available {
        Delivery::Queue(metadata)
    } else {
        let mut batch: Vec<FileMetadata> = Vec::new();
        batch.push(metadata);
        assert(batch@ =~= seq![metadata]);
        Delivery::Direct(batch)
    }
}

/// The accumulator.
pub struct BatchAccumulator {
    batch: Vec<FileMetadata>,
    batch_size: usize,
    batch_interval_ms: u64,
    last_send_ms: u64,
    running: bool,
    stats: BatchProcessorStats,
}

impl BatchAccumulator {
    /// The records that wait in the buffer, in arrival order.
    pub closed spec fn pending(&self) -> Seq<MetadataView> {
        records(self.batch@)
    }

    /// The size at which the buffer is flushed.
    pub closed spec fn batch_size(&self) -> usize {
        self.batch_size
    }

    /// The interval after which a non-empty buffer is flushed.
    pub closed spec fn batch_interval_ms(&self) -> u64 {
        self.batch_interval_ms
    }

    /// When the buffer was last flushed, or the accumulator started.
    pub closed spec fn last_send_ms(&self) -> u64 {
        self.last_send_ms
    }

    /// An accumulator is running.
    pub closed spec fn running(&self) -> bool {
        self.running
    }

    /// The counters.
    pub closed spec fn stats(&self) -> BatchProcessorStats {
        self.stats
    }

    /// The counters add up.
    pub open spec fn wf(&self) -> bool {
        self.stats().balanced() && self.stats().bundle_skipped == 0
    }

    /// An idle accumulator with an empty buffer.
    pub fn new(batch_size: usize, batch_interval_ms: u64) -> (out: BatchAccumulator)
        ensures
            out.wf(),
            out.pending().len() == 0,
            out.batch_size() == batch_size,
            out.batch_interval_ms() == batch_interval_ms,
            out.last_send_ms() == 0,
            !out.running(),
            out.stats().received_files == 0,
    {
        let out = BatchAccumulator {
            batch: Vec::new(),
            batch_size,
            batch_interval_ms,
            last_send_ms: 0,
            running: false,
            stats: BatchProcessorStats {
                received_files: 0,
                hidden_files_skipped: 0,
                rule_excluded_files_skipped: 0,
                invalid_extension_skipped: 0,
                ds_store_skipped: 0,
                directory_skipped: 0,
                bundle_skipped: 0,
                processed_files: 0,
            },
        };
        assert(out.pending() =~= Seq::<MetadataView>::empty());
        out
    }

    /// Starts the accumulator at time `now_ms`. A second start while one is
    /// running is refused and changes nothing.
    pub fn try_start(&mut self, now_ms: u64) -> (started: bool)
        ensures
            started == !old(self).running(),
            final(self).running(),
            final(self).pending() == old(self).pending(),
            final(self).stats() == old(self).stats(),
            final(self).batch_size() == old(self).batch_size(),
            final(self).batch_interval_ms() == old(self).batch_interval_ms(),
            final(self).last_send_ms() == (if started {
                now_ms
            } else {
                old(self).last_send_ms()
            }),
    {
        if self.running {
            return false;
        }
        self.running = true;
        self.last_send_ms = now_ms;
        true
    }

    /// The counters.
    pub fn get_stats(&self) -> (out: BatchProcessorStats)
        ensures
            out == self.stats(),
    {
        self.stats
    }

    /// How many records wait in the buffer.
    pub fn pending_count(&self) -> (n: usize)
        ensures
            n == self.pending().len(),
    {
        self.batch.len()
    }

    /// Whether an accumulator is running.
    pub fn is_running(&self) -> (b: bool)
        ensures
            b == self.running(),
    {
        self.running
    }

    fn take_batch(&mut self, now_ms: u64) -> (out: Vec<FileMetadata>)
        ensures
            records(out@) == old(self).pending(),
            final(self).pending().len() == 0,
            final(self).last_send_ms() == now_ms,
            final(self).stats() == old(self).stats(),
            final(self).running() == old(self).running(),
            final(self).batch_size() == old(self).batch_size(),
            final(self).batch_interval_ms() == old(self).batch_interval_ms(),
    {
        let mut out: Vec<FileMetadata> = Vec::new();
        std::mem::swap(&mut out, &mut self.batch);
        self.last_send_ms = now_ms;
        assert(self.pending() =~= Seq::<MetadataView>::empty());
        out
    }

    /// Takes in one record at time `now_ms`. A record that [`check_record`]
    /// turns down is counted and dropped. Any other record joins the buffer,
    /// and when that brings the buffer to the batch size, the whole buffer is
    /// handed out for submission.
    pub fn accept(
        &mut self,
        metadata: FileMetadata,
        maps: &Vec<FileExtensionMapRust>,
        now_ms: u64,
    ) -> (out: Option<Vec<FileMetadata>>)
        requires
            old(self).wf(),
            old(self).stats().received_files < u64::MAX,
        ensures
            final(self).wf(),
            final(self).running() == old(self).running(),
            final(self).batch_size() == old(self).batch_size(),
            final(self).batch_interval_ms() == old(self).batch_interval_ms(),
            final(self).stats() == old(self).stats().counted(
                skip_reason(metadata@, maps@.map_values(|m: FileExtensionMapRust| m@)),
            ),
            match skip_reason(metadata@, maps@.map_values(|m: FileExtensionMapRust| m@)) {
                Some(_) => out is None && final(self).pending() == old(self).pending()
                    && final(self).last_send_ms() == old(self).last_send_ms(),
                None => if old(self).pending().len() + 1 >= old(self).batch_size() {
                    &&& out is Some
                    &&& records(out->0@) == old(self).pending().push(metadata@)
                    &&& final(self).pending().len() == 0
                    &&& final(self).last_send_ms() == now_ms
                } else {
                    &&& out is None
                    &&& final(self).pending() == old(self).pending().push(metadata@)
                    &&& final(self).last_send_ms() == old(self).last_send_ms()
                },
            },
    {
        self.stats.received_files = self.stats.received_files + 1;
        match check_record(&metadata, maps) {
            Some(SkipReason::Hidden) => {
                self.stats.hidden_files_skipped = self.stats.hidden_files_skipped + 1;
                None
            },
            Some(SkipReason::RuleExcluded) => {
                self.stats.rule_excluded_files_skipped = self.stats.rule_excluded_files_skipped
                    + 1;
                None
            },
            Some(SkipReason::InvalidExtension) => {
                self.stats.invalid_extension_skipped = self.stats.invalid_extension_skipped + 1;
                None
            },
            Some(SkipReason::DsStore) => {
                self.stats.ds_store_skipped = self.stats.ds_store_skipped + 1;
                None
            },
            Some(SkipReason::Directory) => {
                self.stats.directory_skipped = self.stats.directory_skipped + 1;
                None
            },
            None => {
                self.stats.processed_files = self.stats.processed_files + 1;
                let ghost before = self.pending();
                self.batch.push(metadata);
                assert(self.pending() =~= before.push(metadata@));
                if self.batch.len() >= self.batch_size {
                    Some(self.take_batch(now_ms))
                } else {
                    None
                }
            },
        }
    }

    /// The buffer is due at `now_ms`: it is not empty and the interval has
    /// passed since the last flush.
    pub open spec fn due(&self, now_ms: u64) -> bool {
        self.pending().len() > 0 && now_ms - self.last_send_ms() >= self.batch_interval_ms()
    }

    /// A timer tick at time `now_ms`: hands out the buffer if it is due.
    pub fn on_tick(&mut self, now_ms: u64) -> (out: Option<Vec<FileMetadata>>)
        ensures
            final(self).stats() == old(self).stats(),
            final(self).running() == old(self).running(),
            final(self).batch_size() == old(self).batch_size(),
            final(self).batch_interval_ms() == old(self).batch_interval_ms(),
            if old(self).due(now_ms) {
                &&& out is Some
                &&& records(out->0@) == old(self).pending()
                &&& final(self).pending().len() == 0
                &&& final(self).last_send_ms() == now_ms
            } else {
                &&& out is None
                &&& final(self).pending() == old(self).pending()
                &&& final(self).last_send_ms() == old(self).last_send_ms()
            },
    {
        if self.batch.len() > 0 && now_ms >= self.last_send_ms && now_ms - self.last_send_ms
            >= self.batch_interval_ms {
            Some(self.take_batch(now_ms))
        } else {
            None
        }
    }

    /// The source of records closed at time `now_ms`: hands out what is left
    /// in the buffer, if anything, and stops the accumulator.
    pub fn close(&mut self, now_ms: u64) -> (out: Option<Vec<FileMetadata>>)
        ensures
            !final(self).running(),
            final(self).stats() == old(self).stats(),
            final(self).batch_size() == old(self).batch_size(),
            final(self).batch_interval_ms() == old(self).batch_interval_ms(),
            final(self).pending().len() == 0,
            if old(self).pending().len() > 0 {
                &&& out is Some
                &&& records(out->0@) == old(self).pending()
                &&& final(self).last_send_ms() == now_ms
            } else {
                &&& out is None
                &&& final(self).last_send_ms() == old(self).last_send_ms()
            },
    {
        self.running = false;
        if self.batch.len() > 0 {
            Some(self.take_batch(now_ms))
        } else {
            None
        }
    }
}

} // verus!
