use vstd::prelude::*;
use vstd::utf8::encode_utf8;

use crate::protocol::{ChunkView, PerformanceStats, StreamChunk};

verus! {

/// Why the model stopped.
#[derive(Clone, Copy, Debug, PartialEq, Eq, Structural)]
pub enum FinishReason {
    Stop,
    ToolCalls,
    Length,
    ContentFilter,
    FunctionCall,
}

/// The function part of a streamed tool-call fragment.
#[derive(Debug)]
pub struct FunctionFragment {
    pub name: Option<String>,
    pub arguments: Option<String>,
}

/// A piece of a tool call as one frame carries it, tagged by position.
#[derive(Debug)]
pub struct ToolCallFragment {
    pub index: u32,
    pub id: Option<String>,
    pub function: Option<FunctionFragment>,
}

/// The `delta` of one choice in a streamed frame.
#[derive(Debug)]
pub struct DeltaChoice {
    pub content: Option<String>,
    pub reasoning: Option<String>,
    pub tool_calls: Vec<ToolCallFragment>,
    pub finish_reason: Option<FinishReason>,
}

/// One event frame of a streamed response.
#[derive(Debug)]
pub struct StreamFrame {
    pub choices: Vec<DeltaChoice>,
}

/// A tool call of a complete response.
#[derive(Debug)]
pub struct ResponseToolCall {
    pub id: String,
    pub name: String,
    pub arguments: String,
}

/// The `message` of one choice in a complete response.
#[derive(Debug)]
pub struct ResponseChoice {
    pub content: Option<String>,
    pub tool_calls: Vec<ResponseToolCall>,
    pub finish_reason: Option<FinishReason>,
}

/// A complete, not streamed, response.
#[derive(Debug)]
pub struct ChatResponse {
    pub choices: Vec<ResponseChoice>,
}

/// A breach of the response protocol by the service.
#[derive(Clone, Copy, Debug, PartialEq, Eq, Structural)]
pub enum FrameError {
    ChoiceCount { count: usize },
    MissingFunction { index: u32 },
    MissingName { index: u32 },
    UnexpectedFinish { reason: FinishReason },
}

/// Why a response could not be read: the connection failed, the service
/// answered with a non-success status, a payload could not be decoded, or
/// the payload broke the protocol.
#[derive(Debug)]
pub enum StreamError {
    Transport { message: String },
    Status { status: u16, body: String },
    Malformed { message: String },
    Protocol(FrameError),
}

/// The deltas of one frame; whether the response ends normally with it;
/// and the error that ends it otherwise, which comes after the deltas.
#[derive(Debug)]
pub struct DecodedFrame {
    pub chunks: Vec<StreamChunk>,
    pub finished: bool,
    pub error: Option<FrameError>,
}

pub open spec fn chunk_views(cs: Seq<StreamChunk>) -> Seq<ChunkView> {
    cs.map_values(|c: StreamChunk| c@)
}

pub open spec fn text_chunk(t: Option<String>) -> Seq<ChunkView> {
    match t {
        Some(s) => seq![ChunkView::Text(s@)],
        None => Seq::empty(),
    }
}

/// The deltas of one tool-call fragment: a start where it carries a
/// non-empty id (which then needs a name), then its argument text if any.
pub open spec fn fragment_chunks(f: ToolCallFragment) -> Result<Seq<ChunkView>, FrameError> {
    match f.function {
        None => Err(FrameError::MissingFunction { index: f.index }),
        Some(func) => {
            let args = match func.arguments {
                Some(a) => seq![ChunkView::Args { index: f.index, text: a@ }],
                None => Seq::empty(),
            };
            if f.id is Some && f.id->Some_0@.len() > 0 {
                match func.name {
                    None => Err(FrameError::MissingName { index: f.index }),
                    Some(n) => Ok(
                        seq![ChunkView::Start { index: f.index, id: f.id->Some_0@, name: n@ }]
                            + args,
                    ),
                }
            } else {
                Ok(args)
            }
        },
    }
}

/// The deltas of a list of fragments, in order, up to the first bad
/// fragment, and the error of that fragment if there is one. A bad fragment
/// gives no delta of its own, and nothing after it is read.
pub open spec fn fragments_chunks(fs: Seq<ToolCallFragment>) -> (Seq<ChunkView>, Option<FrameError>)
    decreases fs.len(),
{
    if fs.len() == 0 {
        (Seq::empty(), None)
    } else {
        let (cs, bad) = fragments_chunks(fs.drop_last());
        match bad {
            Some(e) => (cs, Some(e)),
            None => match fragment_chunks(fs.last()) {
                Err(e) => (cs, Some(e)),
                Ok(c) => (cs + c, None),
            },
        }
    }
}

/// Whether a finish reason ends a response normally.
pub open spec fn normal_finish(r: FinishReason) -> bool {
    r == FinishReason::Stop || r == FinishReason::ToolCalls
}

/// What one frame with exactly one choice means: its deltas in the order
/// received (text, reasoning text, then the tool-call fragments up to the
/// first bad one), whether it ends the response normally, and the error that
/// ends it otherwise: a bad fragment, or else a finish reason other than
/// stop and tool calls. A frame without exactly one choice is an error alone.
pub open spec fn spec_decode_frame(frame: StreamFrame) -> Result<
    (Seq<ChunkView>, bool, Option<FrameError>),
    FrameError,
> {
    if frame.choices@.len() != 1 {
        Err(FrameError::ChoiceCount { count: frame.choices@.len() as usize })
    } else {
        let c = frame.choices@[0];
        let (calls, bad) = fragments_chunks(c.tool_calls@);
        let cs = text_chunk(c.content) + text_chunk(c.reasoning) + calls;
        match bad {
            Some(e) => Ok((cs, false, Some(e))),
            None => match c.finish_reason {
                Some(r) => if normal_finish(r) {
                    Ok((cs, true, None))
                } else {
                    Ok((cs, false, Some(FrameError::UnexpectedFinish { reason: r })))
                },
                None => Ok((cs, false, None)),
            },
        }
    }
}

proof fn lemma_first_error_stays(fs: Seq<ToolCallFragment>, k: int)
    requires
        0 <= k <= fs.len(),
        fragments_chunks(fs.take(k)).1 is Some,
    ensures
        fragments_chunks(fs) == fragments_chunks(fs.take(k)),
    decreases fs.len() - k,
{
    if k < fs.len() {
        assert(fs.take(k + 1).drop_last() =~= fs.take(k));
        lemma_first_error_stays(fs, k + 1);
    } else {
        assert(fs.take(k) =~= fs);
    }
}

fn push_text(out: &mut Vec<StreamChunk>, t: Option<String>)
    ensures
        chunk_views(final(out)@) == chunk_views(old(out)@) + text_chunk(t),
{
    let ghost before = chunk_views(out@);
    match t {
        Some(s) => {
            out.push(StreamChunk::SystemMessage(s));
        },
        None => {},
    }
    assert(chunk_views(out@) =~= before + text_chunk(t));
}

/// Turns one streamed frame into its deltas, in order, followed by the
/// error that ends the response, if the frame carries one.
pub fn decode_frame(frame: StreamFrame) -> (r: Result<DecodedFrame, FrameError>)
    ensures
        match spec_decode_frame(frame) {
            Ok((cs, fin, err)) => r matches Ok(d) && chunk_views(d.chunks@) == cs && d.finished
                == fin && d.error == err,
            Err(e) => r == Err::<DecodedFrame, FrameError>(e),
        },
{
    let ghost f0 = frame;
    let mut choices = frame.choices;
    if choices.len() != 1 {
        return Err(FrameError::ChoiceCount { count: choices.len() });
    }
    let choice = choices.pop().unwrap();
    assert(choice == f0.choices@[0]);
    let DeltaChoice { content, reasoning, tool_calls, finish_reason } = choice;
    let mut out: Vec<StreamChunk> = Vec::new();
    push_text(&mut out, content);
    push_text(&mut out, reasoning);
    let ghost head = chunk_views(out@);
    let ghost fs = tool_calls@;
    let mut i: usize = 0;
    let mut bad: Option<FrameError> = None;
    assert(head =~= text_chunk(choice.content) + text_chunk(choice.reasoning));
    assert(fs.take(0) =~= Seq::<ToolCallFragment>::empty());
    while i < tool_calls.len() && bad.is_none()
        invariant
            fs == tool_calls@,
            i <= fs.len(),
            chunk_views(out@) == head + fragments_chunks(fs.take(i as int)).0,
            bad == fragments_chunks(fs.take(i as int)).1,
        decreases fs.len() - i,
    {
        let frag = &tool_calls[i];
        let ghost prev = fragments_chunks(fs.take(i as int)).0;
        assert(fs.take(i as int + 1).drop_last() =~= fs.take(i as int));
        assert(fs.take(i as int + 1).last() == fs[i as int]);
        let ghost before = chunk_views(out@);
        let index = frag.index;
        match &frag.function {
            None => {
                bad = Some(FrameError::MissingFunction { index });
            },
            Some(func) => {
                let mut starts = false;
                match &frag.id {
                    Some(id) => {
                        starts = !id.as_str().is_empty();
                    },
                    None => {},
                }
                let named = match &func.name {
                    Some(_) => true,
                    None => false,
                };
                if starts && !named {
                    bad = Some(FrameError::MissingName { index });
                } else {
                    if starts {
                        match (&frag.id, &func.name) {
                            (Some(id), Some(n)) => {
                                out.push(
                                    StreamChunk::StartToolCall {
                                        index,
                                        id: id.clone(),
                                        name: n.clone(),
                                    },
                                );
                            },
                            _ => {},
                        }
                    }
                    match &func.arguments {
                        Some(a) => {
                            out.push(StreamChunk::AppendToolCallArgs { index, text: a.clone() });
                        },
                        None => {},
                    }
                    proof {
                        let c = fragment_chunks(fs[i as int])->Ok_0;
                        assert(chunk_views(out@) =~= before + c);
                        assert(chunk_views(out@) =~= head + (prev + c));
                    }
                }
            },
        }
        i = i + 1;
    }
    proof {
        if bad is Some {
            lemma_first_error_stays(fs, i as int);
        } else {
            assert(fs.take(i as int) =~= fs);
        }
    }
    let (finished, error) = match bad {
        Some(e) => (false, Some(e)),
        None => match finish_reason {
            Some(FinishReason::Stop) => (true, None),
            Some(FinishReason::ToolCalls) => (true, None),
            Some(r) => (false, Some(FrameError::UnexpectedFinish { reason: r })),
            None => (false, None),
        },
    };
    proof {
        let cs = fragments_chunks(fs).0;
        assert(head + cs =~= text_chunk(choice.content) + text_chunk(choice.reasoning) + cs);
    }
    Ok(DecodedFrame { chunks: out, finished, error })
}

/// The deltas of a complete response's tool calls: for each, in order, a
/// start at its position (modulo 2^32) and one fragment with all of its argument text.
pub open spec fn response_call_chunks(calls: Seq<ResponseToolCall>) -> Seq<ChunkView>
    decreases calls.len(),
{
    if calls.len() == 0 {
        Seq::empty()
    } else {
        let k = ((calls.len() - 1) % 0x1_0000_0000) as u32;
        let c = calls.last();
        response_call_chunks(calls.drop_last()) + seq![
            ChunkView::Start { index: k, id: c.id@, name: c.name@ },
            ChunkView::Args { index: k, text: c.arguments@ },
        ]
    }
}

/// What a complete response means: the same deltas a stream would carry,
/// then the error where its finish reason is neither stop nor tool calls.
pub open spec fn spec_synthesize(resp: ChatResponse) -> Result<(Seq<ChunkView>, Option<FrameError>), FrameError> {
    if resp.choices@.len() != 1 {
        Err(FrameError::ChoiceCount { count: resp.choices@.len() as usize })
    } else {
        let c = resp.choices@[0];
        let cs = text_chunk(c.content) + response_call_chunks(c.tool_calls@);
        match c.finish_reason {
            Some(r) if !normal_finish(r) => Ok((cs, Some(FrameError::UnexpectedFinish { reason: r }))),
            _ => Ok((cs, None)),
        }
    }
}

/// Turns a complete response into the deltas a stream would have carried:
/// its text, then a start and an argument fragment per tool call; then the
/// error that ends it, if any.
pub fn synthesize_response(resp: ChatResponse) -> (r: Result<(Vec<StreamChunk>, Option<FrameError>), FrameError>)
    ensures
        match spec_synthesize(resp) {
            Ok((cs, err)) => r matches Ok((v, e)) && chunk_views(v@) == cs && e == err,
            Err(e) => r == Err::<(Vec<StreamChunk>, Option<FrameError>), FrameError>(e),
        },
{
    let ghost r0 = resp;
    let mut choices = resp.choices;
    if choices.len() != 1 {
        return Err(FrameError::ChoiceCount { count: choices.len() });
    }
    let choice = choices.pop().unwrap();
    assert(choice == r0.choices@[0]);
    let ResponseChoice { content, tool_calls, finish_reason } = choice;
    let error = match finish_reason {
        Some(FinishReason::Stop) => None,
        Some(FinishReason::ToolCalls) => None,
        Some(r) => Some(FrameError::UnexpectedFinish { reason: r }),
        None => None,
    };
    let mut out: Vec<StreamChunk> = Vec::new();
    push_text(&mut out, content);
    let ghost head = chunk_views(out@);
    let ghost calls = tool_calls@;
    let mut i: usize = 0;
    assert(calls.take(0) =~= Seq::<ResponseToolCall>::empty());
    while i < tool_calls.len()
        invariant
            calls == tool_calls@,
            i <= calls.len(),
            chunk_views(out@) == head + response_call_chunks(calls.take(i as int)),
        decreases calls.len() - i,
    {
        let call = &tool_calls[i];
        let ghost before = chunk_views(out@);
        let index = (i as u64 % 0x1_0000_0000) as u32;
        out.push(StreamChunk::StartToolCall { index, id: call.id.clone(), name: call.name.clone() });
        out.push(StreamChunk::AppendToolCallArgs { index, text: call.arguments.clone() });
        proof {
            let t = calls.take(i as int + 1);
            assert(t.drop_last() =~= calls.take(i as int));
            assert(t.last() == calls[i as int]);
            assert(t.len() - 1 == i);
            let c = calls[i as int];
            let pair = seq![
                ChunkView::Start { index, id: c.id@, name: c.name@ },
                ChunkView::Args { index, text: c.arguments@ },
            ];
            assert(response_call_chunks(t) == response_call_chunks(calls.take(i as int)) + pair);
            assert(chunk_views(out@) =~= before + pair);
            assert(chunk_views(out@) =~= head + response_call_chunks(t));
        }
        i = i + 1;
    }
    assert(calls.take(i as int) =~= calls);
    Ok((out, error))
}

/// Bytes of model output that a delta carries: its text or argument text.
pub open spec fn chunk_bytes(c: ChunkView) -> nat {
    match c {
        ChunkView::Text(t) => (encode_utf8(t).len() as usize) as nat,
        ChunkView::Args { text, .. } => (encode_utf8(text).len() as usize) as nat,
        _ => 0,
    }
}

pub open spec fn total_bytes(cs: Seq<ChunkView>) -> nat
    decreases cs.len(),
{
    if cs.len() == 0 {
        0
    } else {
        total_bytes(cs.drop_last()) + chunk_bytes(cs.last())
    }
}

pub open spec fn cap_u64(n: int) -> u64 {
    if n > u64::MAX {
        u64::MAX
    } else {
        n as u64
    }
}

/// The bytes of model output in some deltas, capped at `u64::MAX`.
pub fn useful_bytes(chunks: &Vec<StreamChunk>) -> (r: u64)
    ensures
        r == cap_u64(total_bytes(chunk_views(chunks@)) as int),
{
    let ghost cs = chunk_views(chunks@);
    let mut sum: u64 = 0;
    let mut i: usize = 0;
    while i < chunks.len()
        invariant
            cs == chunk_views(chunks@),
            i <= chunks.len(),
            sum == cap_u64(total_bytes(cs.take(i as int)) as int),
        decreases chunks.len() - i,
    {
        let n: usize = match &chunks[i] {
            StreamChunk::SystemMessage(t) => t.as_str().len(),
            StreamChunk::AppendToolCallArgs { text, .. } => text.as_str().len(),
            _ => 0,
        };
        proof {
            assert(cs.take(i as int + 1).drop_last() =~= cs.take(i as int));
            assert(cs.take(i as int + 1).last() == cs[i as int]);
            assert(n == chunk_bytes(cs[i as int]));
        }
        sum = sum.saturating_add(n as u64);
        i = i + 1;
    }
    assert(cs.take(i as int) =~= cs);
    sum
}

/// Output bytes per second over `micros` microseconds; zero over no time.
pub open spec fn rate(bytes: u64, micros: u64) -> u64 {
    if micros == 0 {
        0
    } else {
        cap_u64(bytes as int * 1_000_000 / micros as int)
    }
}

/// The statistics of a response whose first frame came `first` and last
/// frame `last` after a request sent at `start` (all in microseconds), with
/// `bytes` of output after the first frame.
pub open spec fn spec_stats(start: u64, first: Option<u64>, last: u64, bytes: u64) -> Option<
    PerformanceStats,
> {
    match first {
        None => None,
        Some(f) => Some(
            PerformanceStats {
                ttft_micros: if f >= start {
                    (f - start) as u64
                } else {
                    0
                },
                bytes_per_sec: rate(bytes, if last >= start {
                    (last - start) as u64
                } else {
                    0
                }),
            },
        ),
    }
}

/// Receipt times of the frames of one response.
#[derive(Debug)]
pub struct StreamTimeline {
    pub start: u64,
    pub first: Option<u64>,
    pub last: u64,
    pub bytes_after_first: u64,
}

impl StreamTimeline {
    /// A timeline for a request sent at `start`.
    pub fn new(start: u64) -> (r: Self)
        ensures
            r == (StreamTimeline { start, first: None, last: start, bytes_after_first: 0 }),
    {
        StreamTimeline { start, first: None, last: start, bytes_after_first: 0 }
    }

    /// The timeline after a frame received at `now` carrying `bytes` of
    /// output. The first frame marks the time to first byte; the bytes after
    /// it count toward the rate.
    pub open spec fn spec_record(self, now: u64, bytes: u64) -> StreamTimeline {
        match self.first {
            None => StreamTimeline { first: Some(now), last: now, ..self },
            Some(_) => StreamTimeline {
                last: now,
                bytes_after_first: cap_u64(self.bytes_after_first + bytes),
                ..self
            },
        }
    }

    /// Notes a frame received at `now` carrying `bytes` of output.
    pub fn record(&mut self, now: u64, bytes: u64)
        ensures
            *final(self) == old(self).spec_record(now, bytes),
    {
        if self.first.is_none() {
            self.first = Some(now);
        } else {
            self.bytes_after_first = self.bytes_after_first.saturating_add(bytes);
        }
        self.last = now;
    }

    /// The statistics of the frames seen; `None` before the first.
    pub fn stats(&self) -> (r: Option<PerformanceStats>)
        ensures
            r == spec_stats(self.start, self.first, self.last, self.bytes_after_first),
    {
        match self.first {
            None => None,
            Some(f) => {
                let ttft = if f >= self.start {
                    f - self.start
                } else {
                    0
                };
                let dur = if self.last >= self.start {
                    self.last - self.start
                } else {
                    0
                };
                let bps = if dur == 0 {
                    0
                } else {
                    let b = self.bytes_after_first as u128;
                    assert(b * 1_000_000 <= 0xffff_ffff_ffff_ffffu128 * 1_000_000) by (nonlinear_arith)
                        requires
                            b <= 0xffff_ffff_ffff_ffffu128,
                    ;
                    let q = (b * 1_000_000) / (dur as u128);
                    if q > u64::MAX as u128 {
                        u64::MAX
                    } else {
                        q as u64
                    }
                };
                Some(PerformanceStats { ttft_micros: ttft, bytes_per_sec: bps })
            },
        }
    }
}

/// The client side of one streamed response: decodes frames in order and
/// keeps their receipt times.
#[derive(Debug)]
pub struct StreamSession {
    pub timeline: StreamTimeline,
    pub finished: bool,
}

impl StreamSession {
    pub fn new(start: u64) -> (r: Self)
        ensures
            r.timeline == (StreamTimeline { start, first: None, last: start, bytes_after_first: 0 }),
            !r.finished,
    {
        StreamSession { timeline: StreamTimeline::new(start), finished: false }
    }

    /// Decodes a frame received at `now` and notes its receipt.
    pub fn on_frame(&mut self, frame: StreamFrame, now: u64) -> (r: Result<DecodedFrame, FrameError>)
        ensures
            match spec_decode_frame(frame) {
                Ok((cs, fin, err)) => r matches Ok(d) && chunk_views(d.chunks@) == cs && d.finished
                    == fin && d.error == err && final(self).finished == fin && final(self).timeline
                    == old(self).timeline.spec_record(now, cap_u64(total_bytes(cs) as int)),
                Err(e) => r == Err::<DecodedFrame, FrameError>(e) && *final(self) == *old(self),
            },
    {
        let decoded = decode_frame(frame);
        match decoded {
            Ok(d) => {
                let bytes = useful_bytes(&d.chunks);
                self.timeline.record(now, bytes);
                self.finished = d.finished;
                Ok(d)
            },
            Err(e) => Err(e),
        }
    }

    /// The statistics delta that closes a response, if any frame came.
    pub fn finish(&self) -> (r: Option<StreamChunk>)
        ensures
            match spec_stats(
                self.timeline.start,
                self.timeline.first,
                self.timeline.last,
                self.timeline.bytes_after_first,
            ) {
                Some(st) => r matches Some(c) && c@ == ChunkView::Stats(st),
                None => r is None,
            },
    {
        match self.timeline.stats() {
            Some(st) => Some(StreamChunk::PerformanceStats(st)),
            None => None,
        }
    }
}

} // verus!
