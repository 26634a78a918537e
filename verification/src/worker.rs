//! The source worker's configuration and its batch accumulator.
//!
//! The source worker owns a byte stream (a real device or a simulation),
//! drives the reassembler and the decoder, and accumulates the decoded
//! records into fixed-size batches. The batching rule lives here; the
//! blocking reads themselves stay outside the crate and hand chunks in as
//! plain values.

use vstd::prelude::*;

use crate::serial::{line_valid, spec_decode};
use crate::types::SensorData;

verus! {

/// Configuration of the worker that reads and batches device data.
pub struct SerialReaderWorker {
    /// The device identifier to open.
    pub port_name: String,
    /// The baud rate to open it with.
    pub baud_rate: u32,
    /// How many records to accumulate before handing off a batch.
    pub buffer_size: usize,
}

impl SerialReaderWorker {
    /// A new source worker configuration.
    pub fn new(port_name: String, baud_rate: u32, buffer_size: usize) -> (w: Self)
        ensures
            w.port_name@ == port_name@,
            w.baud_rate == baud_rate,
            w.buffer_size == buffer_size,
    {
        SerialReaderWorker { port_name, baud_rate, buffer_size }
    }
}

/// The batch accumulator of one source worker.
///
/// Records are appended in arrival order; exactly when the accumulated
/// batch reaches its capacity it is handed off whole — moved, not copied
/// into a stale buffer — and a fresh empty batch is started.
pub struct Batcher {
    /// The records accumulated since the last hand-off, in arrival order.
    pub buffer: Vec<SensorData>,
    /// The batch capacity.
    pub capacity: usize,
}

/// What one `push` does: the record is appended in arrival order; if that
/// fills the batch to capacity the whole batch is emitted, oldest record
/// first, and the accumulator is left empty — and a batch is emitted in
/// no other case.
pub open spec fn push_post(
    pre: Batcher,
    post: Batcher,
    emitted: Option<Vec<SensorData>>,
    data: SensorData,
) -> bool {
    &&& post.capacity == pre.capacity
    &&& if pre.buffer@.len() + 1 == pre.capacity as nat {
        &&& emitted is Some
        &&& emitted->0@ == pre.buffer@.push(data)
        &&& post.buffer@ == Seq::<SensorData>::empty()
    } else {
        &&& emitted is None
        &&& post.buffer@ == pre.buffer@.push(data)
    }
}

impl Batcher {
    /// A batch is never full between calls: it is handed off the moment
    /// it reaches capacity.
    pub open spec fn inv(&self) -> bool {
        &&& self.capacity >= 1
        &&& self.buffer@.len() < self.capacity
    }

    /// An empty accumulator for batches of `capacity` records.
    pub fn new(capacity: usize) -> (b: Self)
        requires
            capacity >= 1,
        ensures
            b.inv(),
            b.capacity == capacity,
            b.buffer@ == Seq::<SensorData>::empty(),
    {
        Batcher { buffer: Vec::new(), capacity }
    }

    /// Append one record; hand the batch off exactly when it reaches
    /// capacity.
    pub fn push(&mut self, data: SensorData) -> (emitted: Option<Vec<SensorData>>)
        requires
            old(self).inv(),
        ensures
            final(self).inv(),
            push_post(*old(self), *final(self), emitted, data),
    {
        self.buffer.push(data);
        if self.buffer.len() >= self.capacity {
            let mut full: Vec<SensorData> = Vec::new();
            core::mem::swap(&mut self.buffer, &mut full);
            Some(full)
        } else {
            None
        }
    }

    /// Hand off whatever partial batch remains, if any — the cancellation
    /// path, so that no buffered record is lost on shutdown.
    pub fn drain(&mut self) -> (emitted: Option<Vec<SensorData>>)
        requires
            old(self).inv(),
        ensures
            final(self).inv(),
            final(self).capacity == old(self).capacity,
            final(self).buffer@ == Seq::<SensorData>::empty(),
            old(self).buffer@.len() > 0 ==> emitted is Some && emitted->0@ == old(self).buffer@,
            old(self).buffer@.len() == 0 ==> emitted is None,
    {
        if self.buffer.len() > 0 {
            let mut full: Vec<SensorData> = Vec::new();
            core::mem::swap(&mut self.buffer, &mut full);
            Some(full)
        } else {
            None
        }
    }
}

/// Decode one reassembled frame and batch its record.
///
/// A malformed frame is skipped whole: the accumulator is unchanged and
/// nothing is emitted, so one bad frame never stops the loop. A valid
/// frame is decoded — its receipt time stamped from the wall clock — and
/// pushed, handing off the batch exactly when it reaches capacity.
pub fn process_frame(batcher: &mut Batcher, line: &str) -> (emitted: Option<Vec<SensorData>>)
    requires
        old(batcher).inv(),
    ensures
        final(batcher).inv(),
        line_valid(line@) ==> exists|ts: i64|
            push_post(*old(batcher), *final(batcher), emitted, spec_decode(line@, ts)),
        !line_valid(line@) ==> {
            &&& final(batcher).buffer@ == old(batcher).buffer@
            &&& final(batcher).capacity == old(batcher).capacity
            &&& emitted is None
        },
{
    match crate::serial::parse_sensor_data(line) {
        Ok(data) => {
            let emitted = batcher.push(data);
            proof {
                let ts = data.system_timestamp;
                assert(spec_decode(line@, ts) == data);
                assert(push_post(*old(batcher), *batcher, emitted, spec_decode(line@, ts)));
            }
            emitted
        },
        Err(_) => None,
    }
}

} // verus!
