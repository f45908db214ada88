use clip_upload::chunk::chunks;
use clip_upload::progress::{
    completion_event, progress_event, should_emit, ChunkStream, Produced, ProgressPayload, MIN_GAP,
};

const MS: u64 = 1_000_000;

fn payload(n: usize) -> Vec<u8> {
    (0..n).map(|i| (i % 256) as u8).collect()
}

/// Asks the stream until it is at its end; `tick` is the time between calls.
fn drive(data: Vec<u8>, start: u64, tick: u64) -> (Vec<Vec<u8>>, Vec<ProgressPayload>) {
    let mut stream = ChunkStream::new(data, start);
    let mut now = start;
    let mut pieces = Vec::new();
    let mut events = Vec::new();
    loop {
        now += tick;
        let Produced { chunk, event } = stream.next_chunk(now);
        if let Some(e) = event {
            events.push(e);
        }
        match chunk {
            Some(c) => pieces.push(c),
            None => break,
        }
    }
    (pieces, events)
}

#[test]
fn gap_is_fifty_milliseconds() {
    assert_eq!(MIN_GAP, 50 * MS);
}

#[test]
fn report_is_due_at_the_gap_and_not_before() {
    assert!(!should_emit(1000, 1000 + 50 * MS - 1, 1024, 4096));
    assert!(should_emit(1000, 1000 + 50 * MS, 1024, 4096));
    assert!(should_emit(1000, 1000 + 51 * MS, 1024, 4096));
    assert!(!should_emit(1000, 1000, 1024, 4096));
}

#[test]
fn report_is_always_due_at_the_end() {
    assert!(should_emit(1000, 1000, 4096, 4096));
    assert!(should_emit(1000, 0, 4096, 4096));
    assert!(should_emit(0, 0, 0, 0));
}

#[test]
fn clock_that_went_back_counts_as_no_time() {
    assert!(!should_emit(100 * MS, 10 * MS, 1024, 4096));
    assert!(!should_emit(u64::MAX, 0, 1024, 4096));
}

#[test]
fn event_values() {
    assert_eq!(
        progress_event(1024, 4096),
        ProgressPayload { progress: 1024, total: 1024, file_size: 4096 }
    );
    assert_eq!(
        progress_event(4096, 4096),
        ProgressPayload { progress: 4096, total: 4095, file_size: 4096 }
    );
    assert_eq!(progress_event(1, 1), ProgressPayload { progress: 1, total: 0, file_size: 1 });
    assert_eq!(progress_event(0, 0), ProgressPayload { progress: 0, total: 0, file_size: 0 });
    assert_eq!(
        completion_event(4096),
        ProgressPayload { progress: 4096, total: 4096, file_size: 4096 }
    );
    assert_eq!(completion_event(0), ProgressPayload { progress: 0, total: 0, file_size: 0 });
}

#[test]
fn stream_hands_out_the_chunks() {
    for n in [0usize, 1, 1024, 1025, 10000] {
        let data = payload(n);
        let (pieces, _) = drive(data.clone(), 0, MS);
        assert_eq!(pieces, chunks(&data));
        assert_eq!(pieces.concat(), data);
    }
}

#[test]
fn slow_clock_reports_every_chunk() {
    for n in [1usize, 1024, 1025, 10000] {
        let (pieces, events) = drive(payload(n), 7, 50 * MS);
        assert_eq!(events.len(), pieces.len());
        for (i, e) in events.iter().enumerate() {
            let sent = std::cmp::min((i + 1) * 1024, n) as u64;
            assert_eq!(e.progress, sent);
            assert_eq!(e.file_size, n as u64);
            if sent == n as u64 {
                assert_eq!(e.total, n as u64 - 1);
            } else {
                assert_eq!(e.total, sent);
            }
        }
    }
}

#[test]
fn fast_clock_reports_only_the_end() {
    let (pieces, events) = drive(payload(10000), 7, MS);
    assert_eq!(pieces.len(), 10);
    assert_eq!(
        events,
        vec![ProgressPayload { progress: 10000, total: 9999, file_size: 10000 }]
    );
}

#[test]
fn throttled_clock_reports_less_than_every_chunk() {
    // 30 ms between calls: every second chunk is due, and the last one.
    let (pieces, events) = drive(payload(10 * 1024), 0, 30 * MS);
    assert_eq!(pieces.len(), 10);
    assert!(events.len() < pieces.len());
    let sent: Vec<u64> = events.iter().map(|e| e.progress).collect();
    assert_eq!(sent, vec![2048, 4096, 6144, 8192, 10240]);
    assert_eq!(events.last().unwrap().total, 10239);
}

#[test]
fn single_chunk_is_reported_whatever_the_clock() {
    let (pieces, events) = drive(payload(100), 0, 1);
    assert_eq!(pieces.len(), 1);
    assert_eq!(events, vec![ProgressPayload { progress: 100, total: 99, file_size: 100 }]);
}

#[test]
fn last_report_stays_one_short() {
    for n in [1usize, 1024, 1025, 10000] {
        let (_, events) = drive(payload(n), 0, 50 * MS);
        let last = events.last().unwrap();
        assert_eq!(last.progress, n as u64);
        assert_eq!(last.total, n as u64 - 1);
        assert_eq!(events.iter().filter(|e| e.progress == n as u64).count(), 1);
    }
}

#[test]
fn empty_payload_reports_its_end_once() {
    let mut stream = ChunkStream::new(Vec::new(), 0);
    assert_eq!(stream.file_size(), 0);
    assert_eq!(
        stream.next_chunk(1),
        Produced {
            chunk: None,
            event: Some(ProgressPayload { progress: 0, total: 0, file_size: 0 }),
        }
    );
    assert_eq!(stream.next_chunk(2), Produced { chunk: None, event: None });
    assert_eq!(stream.next_chunk(100 * MS), Produced { chunk: None, event: None });
}

#[test]
fn stream_is_silent_after_its_end() {
    let mut stream = ChunkStream::new(payload(10), 0);
    assert_eq!(stream.file_size(), 10);
    let first = stream.next_chunk(1);
    assert_eq!(first.chunk, Some(payload(10)));
    assert_eq!(first.event, Some(ProgressPayload { progress: 10, total: 9, file_size: 10 }));
    assert_eq!(stream.next_chunk(100 * MS), Produced { chunk: None, event: None });
    assert_eq!(stream.next_chunk(200 * MS), Produced { chunk: None, event: None });
}

#[test]
fn progress_grows_and_stays_within_the_size() {
    let (_, events) = drive(payload(20000), 0, 26 * MS);
    assert!(events.len() > 2);
    for pair in events.windows(2) {
        assert!(pair[0].progress < pair[1].progress);
    }
    for e in &events {
        assert!(e.progress <= 20000);
        assert_eq!(e.file_size, 20000);
    }
}

#[test]
fn gap_counts_from_the_last_report() {
    let mut stream = ChunkStream::new(payload(4 * 1024), 0);
    assert_eq!(stream.next_chunk(49 * MS).event, None);
    assert_eq!(
        stream.next_chunk(50 * MS).event,
        Some(ProgressPayload { progress: 2048, total: 2048, file_size: 4096 })
    );
    assert_eq!(stream.next_chunk(99 * MS).event, None);
    assert_eq!(
        stream.next_chunk(99 * MS + 1).event,
        Some(ProgressPayload { progress: 4096, total: 4095, file_size: 4096 })
    );
}
