//! The sink worker: buffering, file rotation, and the shutdown drain.
//!
//! The sink consumes batches from the channel, buffers their records for
//! the columnar writer, rotates the output file on a wall-clock schedule,
//! and guarantees a final flush on shutdown. The decisions live here; the
//! unverified edge performs the file writes it is handed. Every function
//! that hands rows out does so in arrival order, so the on-disk order is
//! a faithful image of arrival order.

use vstd::prelude::*;

use crate::clock::{utc_compact_of, UTC_RENDER_MAX_MS};
use crate::types::SensorData;
use crate::worker::Batcher;

verus! {

/// The columnar writer's row buffer.
///
/// Rows accumulate here until they are handed out — to be written and
/// flushed by the file edge — either when the buffer reaches its
/// threshold or on an explicit flush.
pub struct RecordBuffer {
    /// The buffered rows, in arrival order.
    pub rows: Vec<SensorData>,
    /// The threshold at which `add_data` hands the rows out.
    pub buffer_size: usize,
}

/// What one `add_data` does: the record is appended in arrival order;
/// exactly when that reaches the threshold, all buffered rows are handed
/// out, oldest first, and the buffer is left empty.
pub open spec fn add_data_post(
    pre: RecordBuffer,
    post: RecordBuffer,
    to_write: Option<Vec<SensorData>>,
    data: SensorData,
) -> bool {
    &&& post.buffer_size == pre.buffer_size
    &&& if pre.rows@.len() + 1 >= pre.buffer_size as nat {
        &&& to_write is Some
        &&& to_write->0@ == pre.rows@.push(data)
        &&& post.rows@ == Seq::<SensorData>::empty()
    } else {
        &&& to_write is None
        &&& post.rows@ == pre.rows@.push(data)
    }
}

impl RecordBuffer {
    /// An empty buffer that hands its rows out at `buffer_size` records.
    pub fn new(buffer_size: usize) -> (b: Self)
        ensures
            b.rows@ == Seq::<SensorData>::empty(),
            b.buffer_size == buffer_size,
    {
        RecordBuffer { rows: Vec::new(), buffer_size }
    }

    /// Buffer one record; hand all rows out when the threshold is reached.
    pub fn add_data(&mut self, data: SensorData) -> (to_write: Option<Vec<SensorData>>)
        ensures
            add_data_post(*old(self), *final(self), to_write, data),
    {
        self.rows.push(data);
        if self.rows.len() >= self.buffer_size {
            let mut full: Vec<SensorData> = Vec::new();
            core::mem::swap(&mut self.rows, &mut full);
            Some(full)
        } else {
            None
        }
    }

    /// Hand out everything buffered, oldest first; a no-op on an empty
    /// buffer.
    pub fn flush(&mut self) -> (to_write: Vec<SensorData>)
        ensures
            final(self).buffer_size == old(self).buffer_size,
            final(self).rows@ == Seq::<SensorData>::empty(),
            to_write@ == old(self).rows@,
    {
        let mut full: Vec<SensorData> = Vec::new();
        core::mem::swap(&mut self.rows, &mut full);
        full
    }
}

/// The life of the sink worker: accepting batches, draining, done.
#[derive(Debug, Clone, Copy, PartialEq, Eq, Structural)]
pub enum SinkState {
    /// Accepting batches and checking the rotation deadline.
    Running,
    /// Cancellation observed or producer gone: no new batches.
    Draining,
    /// Everything flushed and the output finalized.
    Closed,
}

/// Is the rotation deadline past? Rotation is disabled at interval zero;
/// otherwise it triggers purely on wall-clock time elapsed since the last
/// rotation, independent of data volume.
pub open spec fn should_rotate_spec(split_minutes: u32, last_rotation_ms: i64, now_ms: i64) -> bool {
    split_minutes != 0 && now_ms - last_rotation_ms >= split_minutes as int * 60_000
}

/// The file name a rotation at `ms` opens: `{prefix}_{YYYYMMDD_HHMMSS}.parquet`.
pub open spec fn output_name_spec(prefix: Seq<char>, ms: i64) -> Seq<char> {
    prefix + "_"@ + utc_compact_of(ms) + ".parquet"@
}

/// Build the output file name for a rotation at `now_ms`.
///
/// `None` only when the timestamp is outside the clock's renderable
/// range; any time in the years 1970 through 9999 is renderable.
pub fn output_file_name(prefix: &str, now_ms: i64) -> (r: Option<String>)
    ensures
        r is Some ==> r->0@ == output_name_spec(prefix@, now_ms),
        0 <= now_ms <= UTC_RENDER_MAX_MS ==> r is Some,
{
    match crate::clock::format_utc_compact(now_ms) {
        Some(stamp) => {
            let mut name = String::from_str(prefix);
            name.append("_");
            name.append(stamp.as_str());
            name.append(".parquet");
            Some(name)
        },
        None => None,
    }
}

/// The sink worker: the writer's buffer, the rotation schedule, and the
/// state of the shutdown protocol.
pub struct FileWriterWorker {
    /// The columnar writer's row buffer.
    pub writer: RecordBuffer,
    /// The rotation interval in minutes; zero disables rotation.
    pub split_minutes: u32,
    /// When the output file was last opened (worker start or rotation),
    /// in milliseconds since the epoch.
    pub last_rotation_ms: i64,
    /// The directory output files are created in.
    pub output_dir: String,
    /// The output file name prefix.
    pub prefix: String,
    /// Where the worker stands in its life cycle.
    pub state: SinkState,
}

impl FileWriterWorker {
    /// A new sink worker whose rotation clock starts at `now_ms`.
    pub fn new_at(
        writer: RecordBuffer,
        split_minutes: u32,
        output_dir: String,
        prefix: String,
        now_ms: i64,
    ) -> (w: Self)
        ensures
            w.writer.rows@ == writer.rows@,
            w.writer.buffer_size == writer.buffer_size,
            w.split_minutes == split_minutes,
            w.last_rotation_ms == now_ms,
            w.output_dir@ == output_dir@,
            w.prefix@ == prefix@,
            w.state is Running,
    {
        FileWriterWorker {
            writer,
            split_minutes,
            last_rotation_ms: now_ms,
            output_dir,
            prefix,
            state: SinkState::Running,
        }
    }

    /// A new sink worker whose rotation clock starts now.
    pub fn new(
        writer: RecordBuffer,
        split_minutes: u32,
        output_dir: String,
        prefix: String,
    ) -> (w: Self)
        ensures
            w.writer.rows@ == writer.rows@,
            w.writer.buffer_size == writer.buffer_size,
            w.split_minutes == split_minutes,
            w.output_dir@ == output_dir@,
            w.prefix@ == prefix@,
            w.state is Running,
    {
        let now_ms = crate::clock::now_millis();
        Self::new_at(writer, split_minutes, output_dir, prefix, now_ms)
    }

    /// Is the rotation deadline past at time `now_ms`?
    pub fn should_rotate_at(&self, now_ms: i64) -> (r: bool)
        ensures
            r == should_rotate_spec(self.split_minutes, self.last_rotation_ms, now_ms),
    {
        if self.split_minutes == 0 {
            return false;
        }
        let interval_ms: i64 = (self.split_minutes as i64) * 60_000;
        let elapsed: i128 = (now_ms as i128) - (self.last_rotation_ms as i128);
        elapsed >= interval_ms as i128
    }

    /// Is the rotation deadline past now? Never true with rotation
    /// disabled; what the clock answers beyond that is the clock's.
    pub fn should_rotate_file(&self) -> (r: bool)
        ensures
            r ==> self.split_minutes != 0,
    {
        let now_ms = crate::clock::now_millis();
        self.should_rotate_at(now_ms)
    }

    /// One rotation check at time `now_ms`.
    ///
    /// If the deadline is past (and the timestamp renderable), the rows
    /// still buffered are handed back — to be written and flushed to the
    /// old file before it is closed — together with the name of the file
    /// to open next, and the deadline is reset to `now_ms`. Otherwise
    /// nothing changes. Rotation never drops a row, and rows handed to
    /// the worker after this call can no longer reach the old file: the
    /// buffer is left empty.
    pub fn check_rotation(&mut self, now_ms: i64) -> (r: Option<(Vec<SensorData>, String)>)
        requires
            old(self).state is Running,
        ensures
            final(self).split_minutes == old(self).split_minutes,
            final(self).output_dir@ == old(self).output_dir@,
            final(self).prefix@ == old(self).prefix@,
            final(self).writer.buffer_size == old(self).writer.buffer_size,
            final(self).state is Running,
            !should_rotate_spec(old(self).split_minutes, old(self).last_rotation_ms, now_ms) ==> {
                &&& r is None
                &&& final(self).writer.rows@ == old(self).writer.rows@
                &&& final(self).last_rotation_ms == old(self).last_rotation_ms
            },
            r is Some ==> {
                &&& should_rotate_spec(old(self).split_minutes, old(self).last_rotation_ms, now_ms)
                &&& (r->0).0@ == old(self).writer.rows@
                &&& (r->0).1@ == output_name_spec(old(self).prefix@, now_ms)
                &&& final(self).writer.rows@ == Seq::<SensorData>::empty()
                &&& final(self).last_rotation_ms == now_ms
            },
            r is None ==> {
                &&& final(self).writer.rows@ == old(self).writer.rows@
                &&& final(self).last_rotation_ms == old(self).last_rotation_ms
            },
            should_rotate_spec(old(self).split_minutes, old(self).last_rotation_ms, now_ms) && 0
                <= now_ms <= UTC_RENDER_MAX_MS ==> r is Some,
    {
        if !self.should_rotate_at(now_ms) {
            return None;
        }
        match output_file_name(self.prefix.as_str(), now_ms) {
            Some(name) => {
                let rows = self.writer.flush();
                self.last_rotation_ms = now_ms;
                Some((rows, name))
            },
            None => None,
        }
    }

    /// Accept one batch from the channel: buffer every record, in batch
    /// order, then flush at batch granularity — the rows handed back are
    /// everything buffered and not yet written, exactly once, in arrival
    /// order, and the buffer is left empty. At most one batch of rows is
    /// ever unflushed.
    #[verifier::loop_isolation(false)]
    pub fn accept_batch(&mut self, batch: Vec<SensorData>) -> (to_write: Vec<SensorData>)
        requires
            old(self).state is Running,
        ensures
            final(self).split_minutes == old(self).split_minutes,
            final(self).last_rotation_ms == old(self).last_rotation_ms,
            final(self).output_dir@ == old(self).output_dir@,
            final(self).prefix@ == old(self).prefix@,
            final(self).writer.buffer_size == old(self).writer.buffer_size,
            final(self).state is Running,
            to_write@ == old(self).writer.rows@ + batch@,
            final(self).writer.rows@ == Seq::<SensorData>::empty(),
    {
        let mut out: Vec<SensorData> = Vec::new();
        let mut i: usize = 0;
        let n = batch.len();
        while i < n
            invariant
                i <= n,
                out@ + self.writer.rows@ == old(self).writer.rows@ + batch@.subrange(0, i as int),
                self.writer.buffer_size == old(self).writer.buffer_size,
                self.split_minutes == old(self).split_minutes,
                self.last_rotation_ms == old(self).last_rotation_ms,
                self.output_dir@ == old(self).output_dir@,
                self.prefix@ == old(self).prefix@,
                self.state == old(self).state,
            decreases n - i,
        {
            let ghost out_pre = out@;
            let ghost rows_pre = self.writer.rows@;
            let data = batch[i];
            match self.writer.add_data(data) {
                Some(mut rows) => {
                    out.append(&mut rows);
                },
                None => {},
            }
            proof {
                assert(out@ + self.writer.rows@ =~= out_pre + rows_pre.push(data));
                assert(out_pre + rows_pre.push(data) =~= (out_pre + rows_pre).push(data));
                assert(batch@.subrange(0, i as int + 1) =~= batch@.subrange(0, i as int).push(
                    data,
                ));
            }
            i = i + 1;
        }
        proof {
            assert(batch@.subrange(0, n as int) =~= batch@);
        }
        let mut rest = self.writer.flush();
        out.append(&mut rest);
        out
    }

    /// Stop accepting batches: cancellation was observed, or the
    /// producer's end of the channel is gone.
    pub fn begin_drain(&mut self)
        ensures
            final(self).writer.rows@ == old(self).writer.rows@,
            final(self).writer.buffer_size == old(self).writer.buffer_size,
            final(self).split_minutes == old(self).split_minutes,
            final(self).last_rotation_ms == old(self).last_rotation_ms,
            final(self).output_dir@ == old(self).output_dir@,
            final(self).prefix@ == old(self).prefix@,
            final(self).state is Draining,
    {
        self.state = SinkState::Draining;
    }

    /// Close the sink: hand back every remaining buffered row — to be
    /// written and flushed before the output handle is finalized — and
    /// report `Closed`. Unconditional: it runs from any state, so a file
    /// is never left unflushed under shutdown.
    pub fn close(&mut self) -> (to_write: Vec<SensorData>)
        ensures
            to_write@ == old(self).writer.rows@,
            final(self).writer.rows@ == Seq::<SensorData>::empty(),
            final(self).writer.buffer_size == old(self).writer.buffer_size,
            final(self).split_minutes == old(self).split_minutes,
            final(self).last_rotation_ms == old(self).last_rotation_ms,
            final(self).output_dir@ == old(self).output_dir@,
            final(self).prefix@ == old(self).prefix@,
            final(self).state is Closed,
    {
        let rows = self.writer.flush();
        self.state = SinkState::Closed;
        rows
    }
}

/// The shutdown drain: hand the source's partial batch to the sink and
/// close it.
///
/// Everything still buffered anywhere — the sink's unwritten rows
/// followed by the source's in-flight batch, in arrival order — comes
/// back to be written before the sink reports `Closed`; both buffers are
/// left empty, so no record produced before cancellation is lost.
pub fn shutdown(batcher: &mut Batcher, worker: &mut FileWriterWorker) -> (written: Vec<
    SensorData,
>)
    requires
        old(batcher).inv(),
        old(worker).state is Running,
    ensures
        written@ == old(worker).writer.rows@ + old(batcher).buffer@,
        final(batcher).buffer@ == Seq::<SensorData>::empty(),
        final(worker).writer.rows@ == Seq::<SensorData>::empty(),
        final(worker).state is Closed,
{
    let mut out: Vec<SensorData> = match batcher.drain() {
        Some(b) => worker.accept_batch(b),
        None => Vec::new(),
    };
    worker.begin_drain();
    let mut rest = worker.close();
    out.append(&mut rest);
    out
}

} // verus!
