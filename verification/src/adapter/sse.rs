//! A bounded reader of server-sent events, byte by byte.
use super::stream::{
    frame_step, lemma_delta_is_the_text, nothing, one_voice, Accumulator, AccumulatorModel,
};
use super::{InvokeRequest, InvokeRequestModel, ModelOutput};
use crate::contracts::configuration::{Model, ModelModel};
use crate::contracts::task::Endpoint;
use crate::cut::{
    decode, joined, lemma_concat_bytes, lemma_parts_join, parts_of, rest_of, split, trim, trim_end, trim_slashes, trimmed_end, trimmed_start,
    unslashed,
};
use crate::events::{Event, EventModel};
use crate::fault::{answers, failure, first_fault, EngineError, EngineErrorModel};
use crate::json::{
    count_model, count_value, empty_object, parse, parsed_json, text_value, Json, JsonModel,
    ObjectBuilder,
};
use crate::model::Duplicate;
use crate::text::{begins_with, byte_count, byte_len, chars_of, join3, same_text, starts_with_text};
use vstd::prelude::*;
use vstd::utf8::{
    decode_utf8, decode_utf8_encode_utf8, is_ascii_chars, is_ascii_chars_encode_utf8, valid_utf8,
};

verus! {

/// How many tool calls an output may hold.
pub const MAX_TOOL_CALLS: usize = 128;

/// The bounds of a stream.
#[derive(Debug)]
pub struct StreamLimits {
    pub endpoint: Endpoint,
    pub frame_bytes: usize,
    pub output_bytes: usize,
    pub event_bytes: usize,
}

/// What a `StreamLimits` holds.
#[verifier::ext_equal]
pub ghost struct StreamLimitsModel {
    pub endpoint: Endpoint,
    pub frame_bytes: usize,
    pub output_bytes: usize,
    pub event_bytes: usize,
}

impl DeepView for StreamLimits {
    type V = StreamLimitsModel;

    open spec fn deep_view(&self) -> StreamLimitsModel {
        StreamLimitsModel {
            endpoint: self.endpoint.deep_view(),
            frame_bytes: self.frame_bytes.deep_view(),
            output_bytes: self.output_bytes.deep_view(),
            event_bytes: self.event_bytes.deep_view(),
        }
    }
}

impl Duplicate for StreamLimits {
    fn duplicate(&self) -> (r: Self) {
        StreamLimits {
            endpoint: self.endpoint.duplicate(),
            frame_bytes: self.frame_bytes.duplicate(),
            output_bytes: self.output_bytes.duplicate(),
            event_bytes: self.event_bytes.duplicate(),
        }
    }
}

impl Clone for StreamLimits {
    fn clone(&self) -> (r: Self)
        ensures
            r.deep_view() == self.deep_view(),
    {
        self.duplicate()
    }
}

/// A stream that is being read.
#[derive(Debug)]
pub struct StreamReader {
    pub limits: StreamLimits,
    pub line: Vec<u8>,
    pub data: String,
    pub acc: Accumulator,
    pub ended: bool,
}

/// What a `StreamReader` holds.
#[verifier::ext_equal]
pub ghost struct StreamReaderModel {
    pub limits: StreamLimitsModel,
    pub line: Seq<u8>,
    pub data: Seq<char>,
    pub acc: AccumulatorModel,
    pub ended: bool,
}

impl DeepView for StreamReader {
    type V = StreamReaderModel;

    open spec fn deep_view(&self) -> StreamReaderModel {
        StreamReaderModel {
            limits: self.limits.deep_view(),
            line: self.line.deep_view(),
            data: self.data.deep_view(),
            acc: self.acc.deep_view(),
            ended: self.ended.deep_view(),
        }
    }
}

impl Duplicate for StreamReader {
    fn duplicate(&self) -> (r: Self) {
        StreamReader {
            limits: self.limits.duplicate(),
            line: self.line.duplicate(),
            data: self.data.duplicate(),
            acc: self.acc.duplicate(),
            ended: self.ended.duplicate(),
        }
    }
}

impl Clone for StreamReader {
    fn clone(&self) -> (r: Self)
        ensures
            r.deep_view() == self.deep_view(),
    {
        self.duplicate()
    }
}

/// What comes of a byte: the reader, the text parts to hand out, and a fault that ends it.
#[verifier::ext_equal]
pub ghost struct Fed {
    pub reader: StreamReaderModel,
    pub parts: Seq<Seq<char>>,
    pub fault: Option<EngineErrorModel>,
}

impl Fed {
    /// What comes of further bytes: none are read after a fault.
    pub open spec fn and_more(self, bytes: Seq<u8>) -> Fed
        decreases bytes.len(), 1int,
    {
        if self.fault is Some {
            self
        } else {
            let rest = self.reader.taken_in(bytes);
            Fed { parts: self.parts + rest.parts, ..rest }
        }
    }
}

/// A line without the carriage return at its end.
pub open spec fn uncarried(line: Seq<u8>) -> Seq<u8> {
    if line.len() > 0 && line.last() == 13 {
        line.drop_last()
    } else {
        line
    }
}

/// The text after `data:` and at most one space.
pub open spec fn field_value(line: Seq<char>) -> Seq<char> {
    let rest = line.skip(5);
    if rest.len() > 0 && rest[0] == ' ' {
        rest.skip(1)
    } else {
        rest
    }
}

/// The bytes of text in one event.
pub open spec fn part_limit(event_bytes: usize) -> nat {
    if event_bytes / 8 == 0 {
        1
    } else {
        (event_bytes / 8) as nat
    }
}

impl StreamReaderModel {
    pub open spec fn failed(self, kind: Seq<char>, message: Seq<char>) -> Fed {
        Fed { reader: self, parts: Seq::empty(), fault: Some(failure(kind, message)) }
    }

    pub open spec fn quiet(self) -> Fed {
        Fed { reader: self, parts: Seq::empty(), fault: None }
    }

    /// What comes of an event's data, read as a value.
    pub open spec fn event(self, value: Option<JsonModel>) -> Fed {
        match value {
            None => self.failed("protocol"@, "invalid SSE JSON"@),
            Some(v) => {
                let step = frame_step(self.acc, v, self.limits.endpoint);
                let now = StreamReaderModel { acc: step.acc, ..self };
                if step.fault is Some {
                    Fed { reader: now, parts: Seq::empty(), fault: step.fault }
                } else if step.acc.size() > self.limits.output_bytes || step.acc.tools.len()
                    > MAX_TOOL_CALLS {
                    now.failed("protocol"@, "model output exceeds byte or tool count limit"@)
                } else {
                    Fed {
                        reader: StreamReaderModel {
                            data: Seq::empty(),
                            line: Seq::empty(),
                            ..now
                        },
                        parts: match step.delta {
                            Some(d) => parts_of(d, part_limit(self.limits.event_bytes)),
                            None => Seq::empty(),
                        },
                        fault: None,
                    }
                }
            },
        }
    }

    /// What comes of a line that is done.
    pub open spec fn text_line(self, current: Seq<char>) -> Fed {
        if current.len() == 0 && self.data.len() > 0 {
            if trimmed_end(trimmed_start(self.data)) == "[DONE]"@ {
                (StreamReaderModel { ended: true, ..self }).quiet()
            } else {
                self.event(parsed_json(trimmed_end(self.data)))
            }
        } else if begins_with(current, "data:"@) {
            (StreamReaderModel {
                data: self.data + field_value(current) + "\n"@,
                line: Seq::empty(),
                ..self
            }).quiet()
        } else {
            (StreamReaderModel { line: Seq::empty(), ..self }).quiet()
        }
    }

    /// What comes of a byte.
    pub open spec fn fed(self, byte: u8) -> Fed {
        if byte != 10 {
            let grown = StreamReaderModel { line: self.line.push(byte), ..self };
            if grown.line.len() + byte_len(self.data) > self.limits.frame_bytes {
                grown.failed("protocol"@, "SSE frame exceeds byte limit"@)
            } else {
                grown.quiet()
            }
        } else {
            let line = uncarried(self.line);
            let cut = StreamReaderModel { line, ..self };
            if valid_utf8(line) {
                cut.text_line(decode_utf8(line))
            } else {
                cut.failed("protocol"@, "invalid SSE UTF-8"@)
            }
        }
    }

    /// What comes of bytes up to the end mark of the stream, or to the first fault.
    pub open spec fn taken_in(self, bytes: Seq<u8>) -> Fed
        decreases bytes.len(), 0int,
    {
        if bytes.len() == 0 || self.ended {
            self.quiet()
        } else {
            self.fed(bytes[0]).and_more(bytes.drop_first())
        }
    }

    /// What comes of chunks of bytes, one after the other.
    pub open spec fn taken_in_chunks(self, chunks: Seq<Seq<u8>>) -> Fed
        decreases chunks.len(),
    {
        if chunks.len() == 0 {
            self.quiet()
        } else {
            self.taken_in_chunks(chunks.drop_last()).and_more(chunks.last())
        }
    }

    /// The fault of a stream that is over.
    pub open spec fn end_fault(self) -> Option<EngineErrorModel> {
        if (self.line.len() > 0 || self.data.len() > 0) && !self.ended {
            Some(failure("protocol"@, "truncated SSE frame"@))
        } else {
            first_fault(self.acc.part_faults(), self.acc.tools.len())
        }
    }
}

/// What came of a chunk: the text parts to hand out first, then a fault that ends the stream.
#[derive(Debug)]
pub struct Chunk {
    pub parts: Vec<String>,
    pub fault: Option<EngineError>,
}

/// A result and a reader are what came of a byte.
pub open spec fn taken(
    r: Result<Vec<String>, EngineError>,
    reader: StreamReaderModel,
    fed: Fed,
) -> bool {
    &&& reader == fed.reader
    &&& answers(r, fed.fault)
    &&& r is Ok ==> r->Ok_0.deep_view() == fed.parts
}

impl StreamReader {
    /// A stream of which nothing was read.
    pub fn new(limits: StreamLimits) -> (r: Self)
        ensures
            r.deep_view() == (StreamReaderModel {
                limits: limits.deep_view(),
                line: Seq::empty(),
                data: Seq::empty(),
                acc: nothing(),
                ended: false,
            }),
    {
        let r = StreamReader {
            limits,
            line: Vec::new(),
            data: String::new(),
            acc: Accumulator::new(),
            ended: false,
        };
        assert(r.deep_view().line =~= Seq::empty());
        r
    }

    fn no_parts() -> (r: Vec<String>)
        ensures
            r.deep_view() == Seq::<Seq<char>>::empty(),
    {
        let r: Vec<String> = Vec::new();
        assert(r.deep_view() =~= Seq::<Seq<char>>::empty());
        r
    }

    /// Takes in an event's data, read as a value; hands out the text parts received with it.
    pub fn take_event(&mut self, value: Option<Json>) -> (r: Result<Vec<String>, EngineError>)
        ensures
            taken(
                r,
                final(self).deep_view(),
                old(self).deep_view().event(
                    match value {
                        Some(v) => Some(v@),
                        None => None,
                    },
                ),
            ),
    {
        let v: Json = match value {
            Some(v) => v,
            None => {
                return Err(EngineError::new("protocol", "invalid SSE JSON"));
            },
        };
        let delta: Option<String> = match self.acc.frame(&v, self.limits.endpoint) {
            Ok(delta) => delta,
            Err(e) => {
                return Err(e);
            },
        };
        if self.acc.exceeds(self.limits.output_bytes) || self.acc.tools.len() > MAX_TOOL_CALLS {
            return Err(
                EngineError::new("protocol", "model output exceeds byte or tool count limit"),
            );
        }
        let limit: usize = if self.limits.event_bytes / 8 == 0 {
            1
        } else {
            self.limits.event_bytes / 8
        };
        let parts: Vec<String> = match delta {
            Some(d) => split(d.as_str(), limit),
            None => Self::no_parts(),
        };
        self.data = String::new();
        self.line = Vec::new();
        assert(self.deep_view().line =~= Seq::empty());
        Ok(parts)
    }

    fn take_line(&mut self, current: &str) -> (r: Result<Vec<String>, EngineError>)
        ensures
            taken(r, final(self).deep_view(), old(self).deep_view().text_line(current@)),
    {
        if current.is_empty() && !self.data.as_str().is_empty() {
            let word: String = trim(self.data.as_str());
            if same_text(word.as_str(), "[DONE]") {
                self.ended = true;
                return Ok(Self::no_parts());
            }
            let body: String = trim_end(self.data.as_str());
            let value: Option<Json> = parse(body.as_str());
            return self.take_event(value);
        }
        if starts_with_text(current, "data:") {
            let chars: Vec<char> = chars_of(current);
            proof {
                reveal_strlit("data:");
                assert("data:"@.len() == 5);
            }
            let from: usize = if chars.len() > 5 && chars[5] == ' ' {
                6
            } else {
                5
            };
            let value: String = rest_of(&chars, from);
            proof {
                if from == 6 {
                    assert(current@.skip(5)[0] == current@[5]);
                    assert(current@.skip(6) =~= current@.skip(5).skip(1));
                } else if chars@.len() > 5 {
                    assert(current@.skip(5)[0] == current@[5]);
                }
            }
            self.data = join3(self.data.as_str(), value.as_str(), "\n");
        }
        self.line = Vec::new();
        assert(self.deep_view().line =~= Seq::empty());
        Ok(Self::no_parts())
    }

    /// Takes in a byte; hands out the text parts received with it.
    pub fn feed(&mut self, byte: u8) -> (r: Result<Vec<String>, EngineError>)
        ensures
            taken(r, final(self).deep_view(), old(self).deep_view().fed(byte)),
    {
        assert(self.line.deep_view() =~= self.line@);
        if byte != 10 {
            self.line.push(byte);
            assert(self.line.deep_view() =~= old(self).line@.push(byte));
            let data: usize = byte_count(self.data.as_str());
            if data > self.limits.frame_bytes || self.line.len() > self.limits.frame_bytes
                - data {
                return Err(EngineError::new("protocol", "SSE frame exceeds byte limit"));
            }
            return Ok(Self::no_parts());
        }
        if self.line.len() > 0 && self.line[self.line.len() - 1] == 13 {
            self.line.pop();
            assert(self.line@ =~= old(self).line@.drop_last());
        }
        assert(self.line@ =~= uncarried(old(self).line@));
        assert(self.line.deep_view() =~= self.line@);
        let current: String = match decode(self.line.as_slice()) {
            Some(current) => current,
            None => {
                return Err(EngineError::new("protocol", "invalid SSE UTF-8"));
            },
        };
        self.take_line(current.as_str())
    }

    /// Takes in a chunk of bytes up to the end mark of the stream or the first fault; hands out the
    /// text parts received with it. How a stream is cut into chunks does not matter.
    pub fn take_chunk(&mut self, chunk: &[u8]) -> (r: Chunk)
        ensures
            ({
                let fed = old(self).deep_view().taken_in(chunk@);
                &&& final(self).deep_view() == fed.reader
                &&& r.parts.deep_view() == fed.parts
                &&& r.fault.deep_view() == fed.fault
            }),
    {
        let ghost whole = old(self).deep_view().taken_in(chunk@);
        let mut parts: Vec<String> = Self::no_parts();
        let mut i: usize = 0;
        proof {
            assert(chunk@.skip(0) =~= chunk@);
            lemma_nothing_before(self.deep_view().taken_in(chunk@));
        }
        while i < chunk.len() && !self.ended
            invariant
                i <= chunk@.len(),
                whole == old(self).deep_view().taken_in(chunk@),
                whole == (Fed {
                    reader: self.deep_view(),
                    parts: parts.deep_view(),
                    fault: None,
                }).and_more(chunk@.skip(i as int)),
            decreases chunk@.len() - i,
        {
            let ghost before = self.deep_view();
            let ghost given = parts.deep_view();
            proof {
                assert(chunk@.skip(i as int)[0] == chunk@[i as int]);
                assert(chunk@.skip(i as int).drop_first() =~= chunk@.skip(i + 1));
                lemma_fed_in_turn(before, given, chunk@.skip(i as int));
            }
            match self.feed(chunk[i]) {
                Err(e) => {
                    proof {
                        let one = before.fed(chunk@[i as int]);
                        lemma_no_parts_at_fault(before, chunk@[i as int]);
                        assert(given + one.parts =~= given);
                    }
                    return Chunk { parts, fault: Some(e) };
                },
                Ok(mut more) => {
                    let ghost added = more.deep_view();
                    parts.append(&mut more);
                    assert(parts.deep_view() =~= given + added);
                },
            }
            i += 1;
        }
        proof {
            assert(parts.deep_view() + Seq::<Seq<char>>::empty() =~= parts.deep_view());
        }
        Chunk { parts, fault: None }
    }

    /// The output of a stream that is over.
    pub fn finish(self) -> (r: Result<ModelOutput, EngineError>)
        ensures
            answers(r, self.deep_view().end_fault()),
            r is Ok ==> r->Ok_0.deep_view() == self.deep_view().acc.output(),
    {
        if (self.line.len() > 0 || !self.data.as_str().is_empty()) && !self.ended {
            return Err(EngineError::new("protocol", "truncated SSE frame"));
        }
        self.acc.finish()
    }
}

proof fn lemma_nothing_before(fed: Fed)
    ensures
        (Fed { parts: Seq::<Seq<char>>::empty() + fed.parts, ..fed }) == fed,
{
    assert(Seq::<Seq<char>>::empty() + fed.parts =~= fed.parts);
}

proof fn lemma_no_parts_at_fault(reader: StreamReaderModel, byte: u8)
    requires
        reader.fed(byte).fault is Some,
    ensures
        reader.fed(byte).parts == Seq::<Seq<char>>::empty(),
{
}

/// The first of further bytes is read, and then the others.
proof fn lemma_fed_in_turn(reader: StreamReaderModel, given: Seq<Seq<char>>, bytes: Seq<u8>)
    requires
        bytes.len() > 0,
        !reader.ended,
    ensures
        ({
            let one = reader.fed(bytes[0]);
            let next = Fed { parts: given + one.parts, ..one };
            (Fed { reader, parts: given, fault: None }).and_more(bytes) == next.and_more(
                bytes.drop_first(),
            )
        }),
{
    reveal_with_fuel(StreamReaderModel::taken_in, 2);
    reveal_with_fuel(Fed::and_more, 2);
    let one = reader.fed(bytes[0]);
    let rest = one.reader.taken_in(bytes.drop_first());
    assert(given + (one.parts + rest.parts) =~= given + one.parts + rest.parts);
}

/// Reading bytes and then more is reading them all at once.
pub proof fn lemma_chunks_join(reader: StreamReaderModel, a: Seq<u8>, b: Seq<u8>)
    ensures
        reader.taken_in(a + b) == reader.taken_in(a).and_more(b),
    decreases a.len(),
{
    if a.len() == 0 {
        assert(a + b =~= b);
        lemma_nothing_before(reader.taken_in(b));
    } else if reader.ended {
        lemma_nothing_before(reader.quiet());
    } else {
        let one = reader.fed(a[0]);
        assert((a + b).drop_first() =~= a.drop_first() + b);
        assert((a + b)[0] == a[0]);
        if one.fault is None {
            lemma_chunks_join(one.reader, a.drop_first(), b);
            let middle = one.reader.taken_in(a.drop_first());
            if middle.fault is None {
                let rest = middle.reader.taken_in(b);
                assert(one.parts + (middle.parts + rest.parts) =~= one.parts + middle.parts
                    + rest.parts);
            }
        }
    }
}

proof fn lemma_chunks_are_their_bytes(reader: StreamReaderModel, chunks: Seq<Seq<u8>>)
    ensures
        reader.taken_in_chunks(chunks) == reader.taken_in(chunks.flatten_alt()),
    decreases chunks.len(),
{
    if chunks.len() > 0 {
        lemma_chunks_are_their_bytes(reader, chunks.drop_last());
        lemma_chunks_join(reader, chunks.drop_last().flatten_alt(), chunks.last());
    }
}

/// What comes of a stream depends on its bytes alone, not on how they are cut into chunks, be it
/// within a line or within a character: the same text parts in the same order, the same fault, and
/// the same reader, which finishes with the same output.
pub proof fn lemma_chunk_boundaries_do_not_matter(
    reader: StreamReaderModel,
    a: Seq<Seq<u8>>,
    b: Seq<Seq<u8>>,
)
    requires
        a.flatten() == b.flatten(),
    ensures
        reader.taken_in_chunks(a) == reader.taken_in_chunks(b),
{
    a.lemma_flatten_and_flatten_alt_are_equivalent();
    b.lemma_flatten_and_flatten_alt_are_equivalent();
    lemma_chunks_are_their_bytes(reader, a);
    lemma_chunks_are_their_bytes(reader, b);
}

/// The URL of a model's endpoint.
pub open spec fn url_of(model: ModelModel) -> Seq<char> {
    unslashed(model.base_url) + "/"@ + (match model.endpoint {
        Endpoint::ChatCompletions => "chat/completions"@,
        Endpoint::Responses => "responses"@,
    })
}

/// The URL of a model's endpoint.
pub fn endpoint_url(model: &Model) -> (r: String)
    ensures
        r@ == url_of(model.deep_view()),
{
    let base: String = trim_slashes(model.base_url.as_str());
    join3(
        base.as_str(),
        "/",
        match model.endpoint {
            Endpoint::ChatCompletions => "chat/completions",
            Endpoint::Responses => "responses",
        },
    )
}

/// The fault of a response by its status and content type.
pub open spec fn response_fault(status: u16, content_type: Option<Seq<char>>) -> Option<
    EngineErrorModel,
> {
    if !(200 <= status < 300) {
        Some(
            EngineErrorModel {
                details: empty_object().with("http_status"@, count_model(status as u64)),
                ..failure("model"@, "provider rejected request"@)
            },
        )
    } else if content_type is None || !begins_with(content_type->0, "text/event-stream"@) {
        Some(failure("protocol"@, "expected an SSE response"@))
    } else {
        None
    }
}

/// Checks a response by its status and content type.
pub fn check_response(status: u16, content_type: Option<&str>) -> (r: Result<(), EngineError>)
    ensures
        answers(
            r,
            response_fault(
                status,
                match content_type {
                    Some(s) => Some(s@),
                    None => None,
                },
            ),
        ),
{
    if status < 200 || status >= 300 {
        return Err(
            EngineError::new("model", "provider rejected request").details(
                ObjectBuilder::new().with("http_status", count_value(status as u64)).build(),
            ),
        );
    }
    let streaming: bool = match content_type {
        Some(s) => starts_with_text(s, "text/event-stream"),
        None => false,
    };
    if !streaming {
        return Err(EngineError::new("protocol", "expected an SSE response"));
    }
    Ok(())
}

/// The event for a part of the text. Planning output is evidence, never a stream increment.
pub open spec fn delta_event_of(
    r: InvokeRequestModel,
    text: Seq<char>,
    sequence: u64,
    now: u64,
) -> Option<EventModel> {
    if r.node == "planner"@ {
        None
    } else {
        Some(
            EventModel {
                task_id: r.task_id,
                node_id: Some(r.node),
                attempt_id: Some(r.attempt_id),
                sequence,
                timestamp_ms: now,
                kind: "content_delta"@,
                data: empty_object().with("text"@, JsonModel::Text(text)).with(
                    "stage"@,
                    JsonModel::Text("candidate"@),
                ),
            },
        )
    }
}

/// The event for a part of the text.
pub fn delta_event(r: &InvokeRequest, text: &str, sequence: u64, now: u64) -> (res: Option<Event>)
    ensures
        res.deep_view() == delta_event_of(r.deep_view(), text@, sequence, now),
{
    if same_text(r.node.as_str(), "planner") {
        return None;
    }
    Some(
        Event {
            task_id: r.task_id.clone(),
            node_id: Some(r.node.clone()),
            attempt_id: Some(r.attempt_id.clone()),
            sequence,
            timestamp_ms: now,
            kind: "content_delta".to_owned(),
            data: ObjectBuilder::new().with("text", text_value(text)).with(
                "stage",
                text_value("candidate"),
            ).build(),
        },
    )
}

impl StreamReaderModel {
    /// The value of the event that a byte completes.
    pub open spec fn completes(self, byte: u8) -> Option<JsonModel> {
        let line = uncarried(self.line);
        if byte == 10 && valid_utf8(line) && decode_utf8(line).len() == 0 && self.data.len() > 0
            && trimmed_end(trimmed_start(self.data)) != "[DONE]"@ {
            parsed_json(trimmed_end(self.data))
        } else {
            None
        }
    }

    /// No event that the bytes complete has text in two choices.
    pub open spec fn one_voiced(self, bytes: Seq<u8>) -> bool
        decreases bytes.len(),
    {
        bytes.len() == 0 || self.ended || {
            &&& self.completes(bytes[0]) matches Some(v) ==> self.limits.endpoint
                == Endpoint::ChatCompletions ==> one_voice(v)
            &&& self.fed(bytes[0]).reader.one_voiced(bytes.drop_first())
        }
    }
}

proof fn lemma_joined_add(a: Seq<Seq<char>>, b: Seq<Seq<char>>)
    ensures
        joined(a + b) == joined(a) + joined(b),
    decreases b.len(),
{
    if b.len() == 0 {
        assert(a + b =~= a);
        assert(joined(a) + joined(b) =~= joined(a));
    } else {
        assert((a + b).drop_last() =~= a + b.drop_last());
        lemma_joined_add(a, b.drop_last());
        assert(joined(a) + joined(b.drop_last()) + b.last() =~= joined(a) + joined(b));
    }
}

proof fn lemma_parts_of_byte(reader: StreamReaderModel, byte: u8)
    requires
        reader.fed(byte).fault is None,
        reader.completes(byte) matches Some(v) ==> reader.limits.endpoint
            == Endpoint::ChatCompletions ==> one_voice(v),
    ensures
        reader.fed(byte).reader.acc.text == reader.acc.text + joined(reader.fed(byte).parts),
{
    let fed = reader.fed(byte);
    match reader.completes(byte) {
        Some(v) => {
            lemma_delta_is_the_text(reader.acc, v, reader.limits.endpoint);
            match frame_step(reader.acc, v, reader.limits.endpoint).delta {
                Some(d) => lemma_parts_join(d, part_limit(reader.limits.event_bytes)),
                None => {},
            }
        },
        None => {
            assert(fed.parts =~= Seq::empty());
            assert(fed.reader.acc == reader.acc);
        },
    }
    assert(reader.acc.text + Seq::<char>::empty() =~= reader.acc.text);
}

/// Nothing is lost, added or reordered between a stream and its events: the parts handed out are,
/// one after the other, what the bytes add to the text of the output. Events with text in two
/// choices are left out.
pub proof fn lemma_parts_are_the_text(reader: StreamReaderModel, bytes: Seq<u8>)
    requires
        reader.one_voiced(bytes),
        reader.taken_in(bytes).fault is None,
    ensures
        reader.taken_in(bytes).reader.acc.text == reader.acc.text + joined(
            reader.taken_in(bytes).parts,
        ),
    decreases bytes.len(),
{
    if bytes.len() == 0 || reader.ended {
        assert(reader.acc.text + Seq::<char>::empty() =~= reader.acc.text);
    } else {
        let one = reader.fed(bytes[0]);
        let rest = one.reader.taken_in(bytes.drop_first());
        assert(one.fault is None);
        lemma_parts_of_byte(reader, bytes[0]);
        lemma_parts_are_the_text(one.reader, bytes.drop_first());
        lemma_joined_add(one.parts, rest.parts);
        assert(reader.acc.text + joined(one.parts) + joined(rest.parts) =~= reader.acc.text + (
        joined(one.parts) + joined(rest.parts)));
    }
}

impl StreamReaderModel {
    /// What the reader holds is within its limits.
    pub open spec fn within(self) -> bool {
        &&& self.line.len() + byte_len(self.data) <= self.limits.frame_bytes
        &&& self.acc.size() <= self.limits.output_bytes
        &&& self.acc.tools.len() <= MAX_TOOL_CALLS
    }
}

proof fn lemma_field_bytes(line: Seq<u8>, data: Seq<char>)
    requires
        valid_utf8(line),
        begins_with(decode_utf8(line), "data:"@),
    ensures
        byte_len(data + field_value(decode_utf8(line)) + "\n"@) <= byte_len(data) + line.len(),
{
    let current = decode_utf8(line);
    let value = field_value(current);
    let rest = current.skip(5);
    decode_utf8_encode_utf8(line);
    reveal_strlit("data:");
    reveal_strlit("\n");
    assert(current =~= current.take(5) + rest);
    lemma_concat_bytes(current.take(5), rest);
    assert(current.take(5) =~= "data:"@);
    assert(is_ascii_chars("data:"@));
    is_ascii_chars_encode_utf8("data:"@);
    if rest.len() > 0 && rest[0] == ' ' {
        assert(rest =~= rest.take(1) + rest.skip(1));
        lemma_concat_bytes(rest.take(1), rest.skip(1));
    }
    lemma_concat_bytes(data, value);
    lemma_concat_bytes(data + value, "\n"@);
    assert(is_ascii_chars("\n"@));
    is_ascii_chars_encode_utf8("\n"@);
}

proof fn lemma_byte_bounded(reader: StreamReaderModel, byte: u8)
    requires
        reader.within(),
        reader.fed(byte).fault is None,
    ensures
        reader.fed(byte).reader.within(),
        reader.fed(byte).reader.limits == reader.limits,
{
    let line = uncarried(reader.line);
    assert(byte_len(Seq::<char>::empty()) == 0);
    if byte == 10 && valid_utf8(line) && begins_with(decode_utf8(line), "data:"@) {
        lemma_field_bytes(line, reader.data);
        reveal_strlit("data:");
    }
}

/// Reading is bounded, however much comes: a reader within its limits stays within them as long as
/// no fault ends the stream.
pub proof fn lemma_reader_bounded(reader: StreamReaderModel, bytes: Seq<u8>)
    requires
        reader.within(),
        reader.taken_in(bytes).fault is None,
    ensures
        reader.taken_in(bytes).reader.within(),
        reader.taken_in(bytes).reader.limits == reader.limits,
    decreases bytes.len(),
{
    if bytes.len() > 0 && !reader.ended {
        lemma_byte_bounded(reader, bytes[0]);
        lemma_reader_bounded(reader.fed(bytes[0]).reader, bytes.drop_first());
    }
}

/// The end of a line may carry a carriage return, which is no part of it; nothing else is taken
/// off.
pub proof fn lemma_carriage_return(line: Seq<u8>, last: u8)
    ensures
        uncarried(line.push(13)) == line,
        last != 13 ==> uncarried(line.push(last)) == line.push(last),
        uncarried(Seq::empty()).len() == 0,
{
    assert(line.push(13).drop_last() =~= line);
}

/// The value of a field stands after its name, without the space before it; further spaces are part
/// of the value.
pub proof fn lemma_field_value(value: Seq<char>)
    ensures
        field_value("data:"@ + seq![' '] + value) == value,
        value.len() == 0 || value[0] != ' ' ==> field_value("data:"@ + value) == value,
{
    reveal_strlit("data:");
    assert("data:"@.len() == 5);
    assert(("data:"@ + seq![' '] + value).skip(5) =~= seq![' '] + value);
    assert((seq![' '] + value).skip(1) =~= value);
    assert(("data:"@ + value).skip(5) =~= value);
}

/// A byte that ends no line is added to the line. A frame that grows over its limit is a fault, and
/// none below it is.
pub proof fn lemma_byte_goes_on_the_line(reader: StreamReaderModel, byte: u8)
    requires
        byte != 10,
    ensures
        ({
            let fed = reader.fed(byte);
            &&& fed.reader.line == reader.line.push(byte) && fed.reader.data == reader.data
            &&& fed.reader.acc == reader.acc && fed.reader.ended == reader.ended
            &&& fed.reader.limits == reader.limits && fed.parts.len() == 0
            &&& fed.fault is Some <==> reader.line.len() + 1 + byte_len(reader.data)
                > reader.limits.frame_bytes
            &&& fed.fault is Some ==> fed.fault->0.kind == "protocol"@
        }),
{
}

/// What a line does that ends: a line of data is added to the data with the end of the line; an
/// empty line after data gives the data out as an event, or ends the stream where the data say so;
/// any other line is passed over.
pub proof fn lemma_what_a_line_does(reader: StreamReaderModel, text: Seq<char>, value: Seq<char>)
    ensures
        ({
            let fed = reader.text_line(text);
            let done = trimmed_end(trimmed_start(reader.data)) == "[DONE]"@;
            let read = parsed_json(trimmed_end(reader.data));
            &&& text == "data:"@ + seq![' '] + value ==> {
                &&& fed.fault is None && fed.parts.len() == 0
                &&& fed.reader.data == reader.data + value + "\n"@
                &&& fed.reader.line.len() == 0
                &&& fed.reader.acc == reader.acc && fed.reader.ended == reader.ended
            }
            &&& text.len() == 0 && reader.data.len() > 0 && done ==> fed.fault is None
                && fed.reader.ended && fed.parts.len() == 0 && fed.reader.acc == reader.acc
            &&& text.len() == 0 && reader.data.len() > 0 && !done && read is None ==> fed.fault
                is Some && fed.fault->0.kind == "protocol"@
            &&& text.len() == 0 && reader.data.len() > 0 && !done && read is Some ==> {
                let step = frame_step(reader.acc, read->0, reader.limits.endpoint);
                &&& fed.reader.acc == step.acc && fed.reader.ended == reader.ended
                &&& step.fault is Some ==> fed.fault == step.fault
                &&& fed.fault is None ==> fed.reader.data.len() == 0 && fed.reader.line.len() == 0
                &&& fed.fault is None ==> step.acc.size() <= reader.limits.output_bytes
                    && step.acc.tools.len() <= 128
                &&& step.fault is None && step.acc.size() <= reader.limits.output_bytes
                    && step.acc.tools.len() <= 128 ==> fed.fault is None
                &&& fed.fault is None && step.delta is None ==> fed.parts.len() == 0
                &&& fed.fault is None && step.delta is Some ==> joined(fed.parts) == step.delta->0
            }
            &&& text.len() == 0 && reader.data.len() == 0 ==> fed.fault is None && fed.reader.data
                == reader.data && fed.reader.acc == reader.acc && fed.parts.len() == 0
            &&& text.len() > 0 && !begins_with(text, "data:"@) ==> fed.fault is None
                && fed.reader.data == reader.data && fed.reader.line.len() == 0 && fed.reader.acc
                == reader.acc && fed.reader.ended == reader.ended && fed.parts.len() == 0
        }),
{
    reveal_strlit("data:");
    assert("data:"@.len() == 5);
    lemma_field_value(value);
    if text == "data:"@ + seq![' '] + value {
        assert(text.take(5) =~= "data:"@);
        assert(begins_with(text, "data:"@));
    }
    if text.len() == 0 {
        let read = parsed_json(trimmed_end(reader.data));
        if read is Some {
            let step = frame_step(reader.acc, read->0, reader.limits.endpoint);
            if step.delta is Some {
                crate::cut::lemma_parts_join(
                    step.delta->0,
                    part_limit(reader.limits.event_bytes),
                );
            }
        }
    }
}

/// A stream that is over is faulty where it breaks off within a frame, unless its end mark came.
pub proof fn lemma_broken_off_stream(reader: StreamReaderModel)
    ensures
        !reader.ended && (reader.line.len() > 0 || reader.data.len() > 0) ==> reader.end_fault()
            is Some && reader.end_fault()->0.kind == "protocol"@,
        reader.ended || reader.line.len() == 0 && reader.data.len() == 0 ==> reader.end_fault()
            == first_fault(reader.acc.part_faults(), reader.acc.tools.len()),
{
}

/// A response is taken exactly where its status says that it succeeded and it is a stream of
/// events.
pub proof fn lemma_which_response_is_taken(status: u16, content_type: Option<Seq<char>>)
    ensures
        response_fault(status, content_type) is None <==> 200 <= status <= 299 && content_type
            is Some && begins_with(content_type->0, "text/event-stream"@),
        !(200 <= status <= 299) ==> response_fault(status, content_type)->0.kind == "model"@
            && response_fault(status, content_type)->0.details.at("http_status"@) == count_model(
            status as u64,
        ),
        200 <= status <= 299 && response_fault(status, content_type) is Some ==> response_fault(
            status,
            content_type,
        )->0.kind == "protocol"@,
{
}

/// A part of a text is told for its task, node and call as a part of a candidate. What a planner
/// says is told to nobody.
pub proof fn lemma_event_of_a_part(
    r: InvokeRequestModel,
    text: Seq<char>,
    sequence: u64,
    now: u64,
)
    ensures
        delta_event_of(r, text, sequence, now) is None <==> r.node == "planner"@,
        delta_event_of(r, text, sequence, now) matches Some(e) ==> {
            &&& e.task_id == r.task_id && e.node_id == Some(r.node)
            &&& e.attempt_id == Some(r.attempt_id)
            &&& e.sequence == sequence && e.timestamp_ms == now
            &&& e.kind == "content_delta"@
            &&& e.data.at("text"@) == JsonModel::Text(text)
            &&& e.data.at("stage"@) == JsonModel::Text("candidate"@)
        },
{
    lemma_part_names();
}

/// The URL of a model is its base without a slash at the end, and the path of its endpoint.
pub proof fn lemma_url_of_a_model(model: ModelModel)
    ensures
        model.endpoint == Endpoint::ChatCompletions ==> url_of(model) == unslashed(model.base_url)
            + "/"@ + "chat/completions"@,
        model.endpoint == Endpoint::Responses ==> url_of(model) == unslashed(model.base_url) + "/"@
            + "responses"@,
{
}

proof fn lemma_part_names()
    ensures
        "text"@ != "stage"@,
{
    reveal_strlit("text");
    reveal_strlit("stage");
    assert("text"@.len() == 4);
    assert("stage"@.len() == 5);
}

/// A part of a text takes at most an eighth of what an event may, or is a single character; it is
/// never limited to nothing.
pub proof fn lemma_limit_of_a_part(event_bytes: usize, text: Seq<char>, i: int)
    ensures
        event_bytes >= 8 ==> part_limit(event_bytes) == event_bytes / 8,
        event_bytes < 8 ==> part_limit(event_bytes) == 1,
        0 <= i < parts_of(text, part_limit(event_bytes)).len() ==> byte_len(
            parts_of(text, part_limit(event_bytes))[i],
        ) <= part_limit(event_bytes) || parts_of(text, part_limit(event_bytes))[i].len() == 1,
{
    crate::cut::lemma_parts_join(text, part_limit(event_bytes));
}

} // verus!
