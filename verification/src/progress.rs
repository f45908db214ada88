//! Sending a payload chunk by chunk, and reporting how far it has come at a
//! bounded rate.
//!
//! Times are nanoseconds on any clock that the caller reads; only their
//! differences matter.

use crate::chunk::{chunk, chunk_count, chunk_end, chunked, CHUNK_SIZE};
use vstd::prelude::*;
use vstd::slice::{slice_subrange, slice_to_vec};

verus! {

/// The time that has to pass after one report before the next is due: 50
/// milliseconds.
pub const MIN_GAP: u64 = 50_000_000;

/// One report to whoever watches the upload.
#[derive(Clone, Copy, Debug, PartialEq, Eq, Structural)]
pub struct ProgressPayload {
    /// The bytes sent so far.
    pub progress: u64,
    /// The bytes to show as sent. While the answer of the server is not in,
    /// this stays one short of `file_size`.
    pub total: u64,
    /// The size of the payload.
    pub file_size: u64,
}

/// Whether a report is due when `sent` of `file_size` bytes are out: always
/// when they are all out, and else when enough time has passed since the
/// last report. A clock that has gone backwards counts as no time passed.
pub open spec fn due(last_emit: u64, now: u64, sent: u64, file_size: u64) -> bool {
    sent == file_size || now - last_emit >= MIN_GAP
}

/// The report for `sent` of `file_size` bytes.
pub open spec fn report(sent: u64, file_size: u64) -> ProgressPayload {
    ProgressPayload {
        progress: sent,
        total: if sent == file_size && file_size > 0 {
            (file_size - 1) as u64
        } else {
            sent
        },
        file_size,
    }
}

/// The report that closes an upload, once the answer of the server is in and
/// has been dealt with.
pub open spec fn completed(file_size: u64) -> ProgressPayload {
    ProgressPayload { progress: file_size, total: file_size, file_size }
}

/// A stream of chunks, seen from outside.
pub struct StreamState {
    /// The payload.
    pub data: Seq<u8>,
    /// How many of its bytes have been handed out.
    pub sent: nat,
    /// When the last report was made; at first, when the stream was made.
    pub last_emit: u64,
    /// Whether the report that all bytes are out has been made.
    pub finished: bool,
}

/// What asking a stream for its next chunk gives.
pub struct Outcome {
    /// The stream afterwards.
    pub next: StreamState,
    /// The chunk, unless the stream is at its end.
    pub chunk: Option<Seq<u8>>,
    /// The report to pass on, if one is due.
    pub event: Option<ProgressPayload>,
}

impl StreamState {
    /// A stream over `data` that has handed out nothing yet.
    pub open spec fn fresh(data: Seq<u8>, now: u64) -> StreamState {
        StreamState { data, sent: 0, last_emit: now, finished: false }
    }

    /// What holds of every stream: it hands out whole chunks, and has
    /// reported the end if it has handed out the last byte of a payload that
    /// is not empty.
    pub open spec fn valid(self) -> bool {
        &&& self.sent <= self.data.len() <= u64::MAX
        &&& self.sent % 1024 == 0 || self.sent == self.data.len()
        &&& self.finished ==> self.sent == self.data.len()
        &&& self.sent == self.data.len() && self.data.len() > 0 ==> self.finished
    }

    /// Asking for the next chunk at the time `now`. While bytes are left,
    /// the next chunk comes with a report if one is due. An empty payload
    /// has no chunk, and reports its end once, when first asked.
    pub open spec fn step(self, now: u64) -> Outcome {
        let len = self.data.len();
        if self.sent < len {
            let end = chunk_end(self.sent as int, len as int) as nat;
            let emit = due(self.last_emit, now, end as u64, len as u64);
            Outcome {
                next: StreamState {
                    data: self.data,
                    sent: end,
                    last_emit: if emit {
                        now
                    } else {
                        self.last_emit
                    },
                    finished: end == len,
                },
                chunk: Some(self.data.subrange(self.sent as int, end as int)),
                event: if emit {
                    Some(report(end as u64, len as u64))
                } else {
                    None
                },
            }
        } else if !self.finished {
            Outcome {
                next: StreamState {
                    data: self.data,
                    sent: self.sent,
                    last_emit: now,
                    finished: true,
                },
                chunk: None,
                event: Some(report(len as u64, len as u64)),
            }
        } else {
            Outcome { next: self, chunk: None, event: None }
        }
    }
}

impl StreamState {
    /// The stream after it has been asked at each of `times`, in order.
    pub open spec fn after(self, times: Seq<u64>) -> StreamState
        decreases times.len(),
    {
        if times.len() == 0 {
            self
        } else {
            self.step(times[0]).next.after(times.skip(1))
        }
    }

    /// The chunks that come out when the stream is asked at each of `times`.
    pub open spec fn chunks(self, times: Seq<u64>) -> Seq<Seq<u8>>
        decreases times.len(),
    {
        if times.len() == 0 {
            Seq::empty()
        } else {
            let first = self.step(times[0]);
            let rest = first.next.chunks(times.skip(1));
            match first.chunk {
                Some(c) => seq![c] + rest,
                None => rest,
            }
        }
    }

    /// The reports that come out when the stream is asked at each of
    /// `times`.
    pub open spec fn events(self, times: Seq<u64>) -> Seq<ProgressPayload>
        decreases times.len(),
    {
        if times.len() == 0 {
            Seq::empty()
        } else {
            let first = self.step(times[0]);
            let rest = first.next.events(times.skip(1));
            match first.event {
                Some(e) => seq![e] + rest,
                None => rest,
            }
        }
    }

    /// The times, among `times`, of the calls that came with a report.
    pub open spec fn reported_at(self, times: Seq<u64>) -> Seq<u64>
        decreases times.len(),
    {
        if times.len() == 0 {
            Seq::empty()
        } else {
            let first = self.step(times[0]);
            let rest = first.next.reported_at(times.skip(1));
            match first.event {
                Some(_) => seq![times[0]] + rest,
                None => rest,
            }
        }
    }

    /// How many chunks the stream has still to hand out.
    pub open spec fn chunks_left(self) -> nat {
        chunk_count((self.data.len() - self.sent) as nat)
    }
}

/// The time at which the stream was last asked before the call with index
/// `i`, when it is asked at each of `times` and was made, or last asked, at
/// `start`.
pub open spec fn asked_before(start: u64, times: Seq<u64>, i: int) -> u64 {
    if i == 0 {
        start
    } else {
        times[i - 1]
    }
}

/// A clock that lets at least the minimal gap pass between any two calls.
pub open spec fn unhurried(start: u64, times: Seq<u64>) -> bool {
    forall|i: int|
        0 <= i < times.len() ==> #[trigger] times[i] - asked_before(start, times, i) >= MIN_GAP
}

/// A clock that lets less than the minimal gap pass between any two calls.
pub open spec fn hurried(start: u64, times: Seq<u64>) -> bool {
    forall|i: int|
        0 <= i < times.len() ==> #[trigger] times[i] - asked_before(start, times, i) < MIN_GAP
}

/// A new stream is as every stream is.
pub proof fn lemma_fresh_is_valid(data: Seq<u8>, now: u64)
    requires
        data.len() <= u64::MAX,
    ensures
        StreamState::fresh(data, now).valid(),
        StreamState::fresh(data, now).chunks_left() == chunk_count(data.len()),
{
}

/// A stream stays as every stream is whenever it is asked, keeps its
/// payload, and hands out one chunk as long as one is left.
pub proof fn lemma_valid(s: StreamState, now: u64)
    requires
        s.valid(),
    ensures
        s.step(now).next.valid(),
        s.step(now).next.data == s.data,
        s.sent < s.data.len() ==> s.step(now).chunk is Some && s.step(now).next.chunks_left() + 1
            == s.chunks_left(),
        s.sent == s.data.len() ==> s.step(now).chunk is None && s.chunks_left() == 0,
{
}

/// Asked often enough, a stream hands out the chunks of its payload, one
/// after the other, and then nothing more.
pub proof fn lemma_stream_chunks(s: StreamState, times: Seq<u64>)
    requires
        s.valid(),
    ensures
        s.chunks(times) == chunked(s.data).subrange(
            chunk_count(s.data.len()) - s.chunks_left(),
            chunk_count(s.data.len()) - s.after(times).chunks_left(),
        ),
        times.len() >= s.chunks_left() ==> s.after(times).chunks_left() == 0,
        times.len() < s.chunks_left() ==> s.after(times).chunks_left() == s.chunks_left()
            - times.len(),
    decreases times.len(),
{
    let all = chunked(s.data);
    let n = chunk_count(s.data.len());
    if times.len() == 0 {
        assert(s.chunks(times) =~= all.subrange(n - s.chunks_left(), n - s.chunks_left()));
    } else {
        let first = s.step(times[0]);
        lemma_valid(s, times[0]);
        lemma_stream_chunks(first.next, times.skip(1));
        let rest = first.next.chunks(times.skip(1));
        let stop = n - s.after(times).chunks_left();
        if s.sent < s.data.len() {
            let i = n - s.chunks_left();
            assert(s.sent == i * 1024);
            assert(first.chunk == Some(chunk(s.data, i)));
            assert(seq![all[i]] + all.subrange(i + 1, stop) =~= all.subrange(i, stop));
        } else {
            assert(all.subrange(n as int, n as int) =~= Seq::<Seq<u8>>::empty());
        }
    }
}

/// A new stream that is asked at least as often as its payload has chunks
/// hands out exactly those chunks.
pub proof fn lemma_stream_is_chunked(data: Seq<u8>, start: u64, times: Seq<u64>)
    requires
        data.len() <= u64::MAX,
        times.len() >= chunk_count(data.len()),
    ensures
        StreamState::fresh(data, start).chunks(times) == chunked(data),
{
    let s = StreamState::fresh(data, start);
    lemma_stream_chunks(s, times);
    assert(chunked(data).subrange(0, chunk_count(data.len()) as int) =~= chunked(data));
}

/// No call gives more than one report.
pub proof fn lemma_events_bound(s: StreamState, times: Seq<u64>)
    ensures
        s.events(times).len() <= times.len(),
    decreases times.len(),
{
    if times.len() > 0 {
        lemma_events_bound(s.step(times[0]).next, times.skip(1));
    }
}

/// Under a clock that lets the minimal gap pass between calls, every chunk
/// comes with a report.
pub proof fn lemma_unhurried_reports_every_chunk(s: StreamState, times: Seq<u64>)
    requires
        s.valid(),
        times.len() <= s.chunks_left(),
        unhurried(s.last_emit, times),
    ensures
        s.events(times).len() == times.len(),
        s.chunks(times).len() == times.len(),
    decreases times.len(),
{
    if times.len() > 0 {
        let first = s.step(times[0]);
        let rest = times.skip(1);
        lemma_valid(s, times[0]);
        assert(times[0] - asked_before(s.last_emit, times, 0) >= MIN_GAP);
        assert(first.next.last_emit == times[0]);
        assert forall|i: int| 0 <= i < rest.len() implies #[trigger] rest[i] - asked_before(
            times[0],
            rest,
            i,
        ) >= MIN_GAP by {
            assert(times[i + 1] - asked_before(s.last_emit, times, i + 1) >= MIN_GAP);
        }
        lemma_unhurried_reports_every_chunk(first.next, rest);
    }
}

/// Under a clock that lets less than the minimal gap pass between calls, a
/// payload of two chunks or more gets fewer reports than it has chunks.
pub proof fn lemma_hurried_reports_less(s: StreamState, times: Seq<u64>)
    requires
        s.valid(),
        s.chunks_left() >= 2,
        times.len() == s.chunks_left(),
        hurried(s.last_emit, times),
    ensures
        s.events(times).len() < times.len(),
        s.chunks(times).len() == times.len(),
{
    let first = s.step(times[0]);
    lemma_valid(s, times[0]);
    assert(times[0] - asked_before(s.last_emit, times, 0) < MIN_GAP);
    assert(first.event is None);
    lemma_events_bound(first.next, times.skip(1));
    lemma_stream_chunks(s, times);
}

/// A stream that has reported its end reports nothing more.
pub proof fn lemma_silent_after_end(s: StreamState, times: Seq<u64>)
    requires
        s.valid(),
        s.finished,
    ensures
        s.events(times) == Seq::<ProgressPayload>::empty(),
        s.chunks(times) == Seq::<Seq<u8>>::empty(),
    decreases times.len(),
{
    if times.len() > 0 {
        lemma_silent_after_end(s.step(times[0]).next, times.skip(1));
    }
}

/// The reports of a stream count the bytes sent: each names more than the
/// one before it, none more than the size of the payload, which each of
/// them gives unchanged.
pub proof fn lemma_progress_increases(s: StreamState, times: Seq<u64>)
    requires
        s.valid(),
    ensures
        forall|i: int|
            0 <= i < s.events(times).len() ==> s.sent <= (#[trigger] s.events(times)[i]).progress
                <= s.data.len() && s.events(times)[i].file_size == s.data.len() && (s.sent
                < s.data.len() ==> s.sent < s.events(times)[i].progress),
        forall|i: int, j: int|
            0 <= i < j < s.events(times).len() ==> (#[trigger] s.events(times)[i]).progress < (
            #[trigger] s.events(times)[j]).progress,
    decreases times.len(),
{
    if times.len() > 0 {
        let first = s.step(times[0]);
        let rest = first.next.events(times.skip(1));
        lemma_valid(s, times[0]);
        lemma_progress_increases(first.next, times.skip(1));
        if first.next.finished {
            lemma_silent_after_end(first.next, times.skip(1));
        }
        let all = s.events(times);
        match first.event {
            Some(e) => {
                assert(all =~= seq![e] + rest);
                assert forall|i: int| 0 <= i < all.len() implies s.sent <= (
                #[trigger] all[i]).progress <= s.data.len() && all[i].file_size == s.data.len()
                    && (s.sent < s.data.len() ==> s.sent < all[i].progress) by {
                    if i > 0 {
                        assert(all[i] == rest[i - 1]);
                    }
                }
                assert forall|i: int, j: int| 0 <= i < j < all.len() implies (
                #[trigger] all[i]).progress < (#[trigger] all[j]).progress by {
                    assert(all[j] == rest[j - 1]);
                    if i > 0 {
                        assert(all[i] == rest[i - 1]);
                    }
                }
            },
            None => {
                assert(all =~= rest);
            },
        }
    }
}

/// Reports keep their distance: each comes at least the minimal gap after
/// the one before it, or else it is the report that all bytes are out. The
/// first is measured from the time the stream was made.
pub proof fn lemma_reports_keep_their_distance(s: StreamState, times: Seq<u64>)
    requires
        s.valid(),
    ensures
        s.reported_at(times).len() == s.events(times).len(),
        forall|i: int|
            0 <= i < s.events(times).len() ==> (#[trigger] s.reported_at(times)[i])
                - asked_before(s.last_emit, s.reported_at(times), i) >= MIN_GAP || s.events(
                times,
            )[i].progress == s.data.len(),
        s.events(times).len() > 0 ==> s.after(times).last_emit == s.reported_at(times).last(),
        s.events(times).len() == 0 ==> s.after(times).last_emit == s.last_emit,
    decreases times.len(),
{
    if times.len() > 0 {
        let first = s.step(times[0]);
        let rest = times.skip(1);
        lemma_valid(s, times[0]);
        lemma_reports_keep_their_distance(first.next, rest);
        let at = s.reported_at(times);
        let events = s.events(times);
        let at_rest = first.next.reported_at(rest);
        let events_rest = first.next.events(rest);
        match first.event {
            Some(e) => {
                assert(at =~= seq![times[0]] + at_rest);
                assert(events =~= seq![e] + events_rest);
                assert forall|i: int| 0 <= i < events.len() implies (#[trigger] at[i])
                    - asked_before(s.last_emit, at, i) >= MIN_GAP || events[i].progress
                    == s.data.len() by {
                    if i > 0 {
                        assert(at[i] == at_rest[i - 1]);
                        assert(events[i] == events_rest[i - 1]);
                        assert(asked_before(s.last_emit, at, i) == asked_before(
                            times[0],
                            at_rest,
                            i - 1,
                        ));
                    }
                }
                if events_rest.len() > 0 {
                    assert(at.last() == at_rest.last());
                }
            },
            None => {
                assert(at =~= at_rest);
                assert(events =~= events_rest);
                assert forall|i: int| 0 <= i < events.len() implies (#[trigger] at[i])
                    - asked_before(s.last_emit, at, i) >= MIN_GAP || events[i].progress
                    == s.data.len() by {
                    assert(asked_before(s.last_emit, at, i) == asked_before(
                        first.next.last_emit,
                        at_rest,
                        i,
                    ));
                }
            },
        }
    }
}

/// A stream that is asked for each chunk that is left, and has at least one
/// left, makes its last report with the last chunk: all bytes are out, and
/// the bytes to show stay one short of them. Every report before names fewer
/// bytes.
pub proof fn lemma_last_report(s: StreamState, times: Seq<u64>)
    requires
        s.valid(),
        s.chunks_left() >= 1,
        times.len() == s.chunks_left(),
    ensures
        s.events(times).len() >= 1,
        s.events(times).last() == report(s.data.len() as u64, s.data.len() as u64),
        s.events(times).last().progress == s.data.len(),
        s.events(times).last().total == s.data.len() - 1,
        forall|i: int|
            0 <= i < s.events(times).len() - 1 ==> (#[trigger] s.events(times)[i]).progress
                < s.data.len(),
        s.after(times).finished,
    decreases times.len(),
{
    let first = s.step(times[0]);
    let rest = times.skip(1);
    lemma_valid(s, times[0]);
    lemma_progress_increases(s, times);
    if s.chunks_left() == 1 {
        assert(first.next.finished);
        assert(rest.len() == 0);
        assert(first.next.events(rest) =~= Seq::<ProgressPayload>::empty());
        assert(s.events(times) =~= seq![first.event->0]);
        assert(first.next.after(rest) == first.next);
    } else {
        lemma_last_report(first.next, rest);
        let tail = first.next.events(rest);
        match first.event {
            Some(e) => {
                assert(s.events(times) =~= seq![e] + tail);
                assert(s.events(times).last() == tail.last());
            },
            None => {
                assert(s.events(times) =~= tail);
            },
        }
    }
}

/// A stream over an empty payload hands out no chunk and reports its end
/// exactly once, when it is first asked.
pub proof fn lemma_empty_payload(start: u64, times: Seq<u64>)
    requires
        times.len() >= 1,
    ensures
        StreamState::fresh(Seq::<u8>::empty(), start).events(times) == seq![report(0, 0)],
        StreamState::fresh(Seq::<u8>::empty(), start).chunks(times) == Seq::<Seq<u8>>::empty(),
        report(0, 0) == (ProgressPayload { progress: 0, total: 0, file_size: 0 }),
{
    let s = StreamState::fresh(Seq::<u8>::empty(), start);
    let first = s.step(times[0]);
    lemma_silent_after_end(first.next, times.skip(1));
    assert(s.events(times) =~= seq![report(0, 0)]);
}

/// What `ChunkStream::next_chunk` hands out.
#[derive(Clone, Debug, PartialEq, Eq)]
pub struct Produced {
    /// The chunk, unless the stream is at its end.
    pub chunk: Option<Vec<u8>>,
    /// The report to pass on, if one is due.
    pub event: Option<ProgressPayload>,
}

/// A payload that is handed out in chunks.
pub struct ChunkStream {
    data: Vec<u8>,
    sent: usize,
    last_emit: u64,
    end_reported: bool,
}

/// Whether a report is due.
pub fn should_emit(last_emit: u64, now: u64, sent: u64, file_size: u64) -> (r: bool)
    ensures
        r == due(last_emit, now, sent, file_size),
{
    sent == file_size || (now >= last_emit && now - last_emit >= MIN_GAP)
}

/// The report for `sent` of `file_size` bytes.
pub fn progress_event(sent: u64, file_size: u64) -> (r: ProgressPayload)
    ensures
        r == report(sent, file_size),
{
    let total: u64 = if sent == file_size && file_size > 0 {
        file_size - 1
    } else {
        sent
    };
    ProgressPayload { progress: sent, total, file_size }
}

/// The report that closes an upload.
pub fn completion_event(file_size: u64) -> (r: ProgressPayload)
    ensures
        r == completed(file_size),
{
    ProgressPayload { progress: file_size, total: file_size, file_size }
}

impl View for ChunkStream {
    type V = StreamState;

    closed spec fn view(&self) -> StreamState {
        StreamState {
            data: self.data@,
            sent: self.sent as nat,
            last_emit: self.last_emit,
            finished: self.end_reported || (self.sent == self.data@.len() && self.sent > 0),
        }
    }
}

impl ChunkStream {
    #[verifier::type_invariant]
    spec fn inv(self) -> bool {
        self@.valid()
    }

    /// A stream over `data`, made at the time `now`.
    pub fn new(data: Vec<u8>, now: u64) -> (r: ChunkStream)
        ensures
            r@ == StreamState::fresh(data@, now),
    {
        let _ = data.len();
        ChunkStream { data, sent: 0, last_emit: now, end_reported: false }
    }

    /// The size of the payload. What holds of every stream holds of this
    /// one.
    pub fn file_size(&self) -> (r: u64)
        ensures
            r == self@.data.len(),
            self@.valid(),
    {
        proof {
            use_type_invariant(self);
        }
        self.data.len() as u64
    }

    /// Hands out the next chunk, with a report if one is due at the time
    /// `now`.
    pub fn next_chunk(&mut self, now: u64) -> (r: Produced)
        ensures
            final(self)@ == old(self)@.step(now).next,
            match r.chunk {
                Some(c) => old(self)@.step(now).chunk == Some(c@),
                None => old(self)@.step(now).chunk is None,
            },
            r.event == old(self)@.step(now).event,
    {
        proof {
            use_type_invariant(&*self);
        }
        let len = self.data.len();
        if self.sent < len {
            let end: usize = if len - self.sent >= CHUNK_SIZE {
                self.sent + CHUNK_SIZE
            } else {
                len
            };
            let piece = slice_to_vec(slice_subrange(self.data.as_slice(), self.sent, end));
            let emit = should_emit(self.last_emit, now, end as u64, len as u64);
            self.sent = end;
            if emit {
                self.last_emit = now;
                Produced { chunk: Some(piece), event: Some(progress_event(end as u64, len as u64)) }
            } else {
                Produced { chunk: Some(piece), event: None }
            }
        } else if !self.end_reported && len == 0 {
            self.last_emit = now;
            self.end_reported = true;
            Produced { chunk: None, event: Some(progress_event(len as u64, len as u64)) }
        } else {
            Produced { chunk: None, event: None }
        }
    }
}

} // verus!
