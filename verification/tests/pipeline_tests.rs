//! Tests of batching, rotation, and the shutdown drain.

use receiver::{
    output_file_name, process_frame, shutdown, Batcher, FileWriterWorker, RecordBuffer,
    Reassembler, SensorData, SinkState,
};

fn record(counter: u32) -> SensorData {
    SensorData {
        timestamp: counter,
        temp: 0x40A0_0000, // 5.0
        gx: 0x4040_0000,   // 3.0
        gy: 0xC000_0000,   // -2.0
        gz: 0x0000_0000,   // 0.0
        ax: 0x3F80_0000,   // 1.0
        ay: 0xBF80_0000,   // -1.0
        az: 0x8000_0000,   // -0.0
        system_timestamp: 1_000,
    }
}

fn frame_line(counter: u32) -> String {
    format!(
        "{:08X},40A00000,40400000,C0000000,00000000,3F800000,BF800000,80000000\n",
        counter
    )
}

#[test]
fn batch_is_handed_off_exactly_at_capacity() {
    let mut batcher = Batcher::new(3);
    assert_eq!(batcher.push(record(0)), None);
    assert_eq!(batcher.push(record(1)), None);
    let batch = batcher.push(record(2)).expect("third record must emit the batch");
    assert_eq!(batch.len(), 3);
    assert_eq!(
        batch.iter().map(|r| r.timestamp).collect::<Vec<_>>(),
        vec![0, 1, 2]
    );
    // The accumulator starts over.
    assert_eq!(batcher.buffer.len(), 0);
    assert_eq!(batcher.push(record(3)), None);
}

#[test]
fn drain_hands_off_partial_batch_once() {
    let mut batcher = Batcher::new(10);
    assert_eq!(batcher.drain(), None, "an empty accumulator drains nothing");
    batcher.push(record(0));
    batcher.push(record(1));
    let batch = batcher.drain().expect("a partial batch must be drained");
    assert_eq!(batch.len(), 2);
    assert_eq!(batcher.drain(), None, "nothing is drained twice");
}

#[test]
fn malformed_frame_is_skipped_in_order() {
    // One invalid line between two valid lines yields exactly the two
    // valid records, in original order.
    let stream = format!("{}NOT,A,VALID,LINE\n{}", frame_line(17), frame_line(18));
    let mut reasm = Reassembler::new();
    let mut batcher = Batcher::new(100);
    for line in reasm.push_chunk(&stream) {
        process_frame(&mut batcher, &line);
    }
    let batch = batcher.drain().expect("two records should be buffered");
    assert_eq!(batch.len(), 2);
    assert_eq!(batch[0].timestamp, 17);
    assert_eq!(batch[1].timestamp, 18);
}

#[test]
fn record_buffer_hands_rows_out_at_threshold() {
    let mut buf = RecordBuffer::new(2);
    assert_eq!(buf.add_data(record(0)), None);
    let rows = buf.add_data(record(1)).expect("threshold reached");
    assert_eq!(rows.len(), 2);
    assert_eq!(buf.rows.len(), 0);
    assert_eq!(buf.add_data(record(2)), None);
    let rest = buf.flush();
    assert_eq!(rest.len(), 1);
    assert_eq!(rest[0].timestamp, 2);
    assert_eq!(buf.flush(), Vec::new(), "flushing an empty buffer is a no-op");
}

#[test]
fn output_file_name_renders_the_rotation_instant() {
    assert_eq!(
        output_file_name("sensor_log", 0).as_deref(),
        Some("sensor_log_19700101_000000.parquet")
    );
    // 2000-01-12 01:02:03.004 UTC
    assert_eq!(
        output_file_name("x", 947_638_923_004).as_deref(),
        Some("x_20000112_010203.parquet")
    );
}

#[test]
fn rotation_triggers_exactly_on_elapsed_interval() {
    let writer = RecordBuffer::new(100);
    // A 10-minute interval, with the rotation clock started at 0.
    let mut worker = FileWriterWorker::new_at(writer, 10, String::from("logs"), String::from("run"), 0);

    assert!(!worker.should_rotate_at(599_999));
    assert!(worker.should_rotate_at(600_000));

    // Below the deadline nothing happens.
    assert!(worker.check_rotation(599_999).is_none());

    // Buffer a row, then rotate past the deadline: the pre-rotation rows
    // come back to be flushed to the old file, and the new file's name
    // carries the rotation instant.
    worker.writer.add_data(record(1));
    let (rows, name) = worker.check_rotation(600_000).expect("deadline elapsed");
    assert_eq!(rows.len(), 1);
    assert_eq!(name, "run_19700101_001000.parquet");
    assert_eq!(worker.writer.rows.len(), 0, "no row can still reach the old file");

    // The deadline was reset: ten more minutes must pass.
    assert!(worker.check_rotation(600_001).is_none());
    assert!(worker.check_rotation(1_200_000).is_some());
}

#[test]
fn rotation_disabled_at_interval_zero() {
    let writer = RecordBuffer::new(100);
    let mut worker = FileWriterWorker::new_at(writer, 0, String::from("logs"), String::from("run"), 0);
    assert!(!worker.should_rotate_at(i64::MAX));
    assert!(worker.check_rotation(i64::MAX).is_none());
}

#[test]
fn shutdown_drains_inflight_batch_before_closed() {
    // Cancellation with a non-empty in-flight batch in the source: the
    // batch is flushed to output before the sink reports Closed.
    let mut batcher = Batcher::new(100);
    batcher.push(record(1));
    batcher.push(record(2));

    let writer = RecordBuffer::new(100);
    let mut worker = FileWriterWorker::new_at(writer, 0, String::from("logs"), String::from("run"), 0);
    worker.writer.add_data(record(0));

    let written = shutdown(&mut batcher, &mut worker);
    assert_eq!(
        written.iter().map(|r| r.timestamp).collect::<Vec<_>>(),
        vec![0, 1, 2],
        "everything buffered anywhere is written, in arrival order"
    );
    assert!(matches!(worker.state, SinkState::Closed));
    assert_eq!(batcher.buffer.len(), 0);
    assert_eq!(worker.writer.rows.len(), 0);
}

#[test]
fn five_frames_one_batch_one_file() {
    // Frames for counters 0..5 with buffer size 5: exactly one batch of
    // five records, written to one rotation-free output, with timestamps
    // 0,1,2,3,4 in that order.
    let mut stream = String::new();
    for counter in 0..5 {
        stream.push_str(&frame_line(counter));
    }

    let mut reasm = Reassembler::new();
    let mut batcher = Batcher::new(5);
    let mut batches: Vec<Vec<SensorData>> = Vec::new();
    for line in reasm.push_chunk(&stream) {
        if let Some(batch) = process_frame(&mut batcher, &line) {
            batches.push(batch);
        }
    }
    assert_eq!(batches.len(), 1, "exactly one batch is handed off");
    assert_eq!(batcher.buffer.len(), 0, "nothing is left in flight");

    let writer = RecordBuffer::new(5);
    let mut worker = FileWriterWorker::new_at(writer, 0, String::from("logs"), String::from("run"), 0);
    let mut rows_written: Vec<SensorData> = Vec::new();
    for batch in batches {
        assert!(worker.check_rotation(1_000).is_none(), "rotation is disabled");
        rows_written.extend(worker.accept_batch(batch));
    }
    rows_written.extend(worker.close());
    assert_eq!(
        rows_written.iter().map(|r| r.timestamp).collect::<Vec<_>>(),
        vec![0, 1, 2, 3, 4]
    );
}
