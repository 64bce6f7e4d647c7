//! Token usage and response ids read from upstream responses, whole bodies
//! and event streams alike.
use vstd::prelude::*;
use crate::json::{
    JsonValue, JsonNumber, field, field_of, non_null_field, as_text, as_u64, as_i64, as_bool, json_from_text,
    json_from_bytes, parse_json_text, parse_json_bytes, get_member, get_member_of, non_null_member,
    text_of, u64_of, i64_of, bool_of,
};
use crate::http::{sse_boundary_at, crlf_crlf_at, find_sse_frame_boundary, Headers, header_value_spec};
use crate::split::{lines_of, lines_exec, pieces};
use crate::text::{
    trim, lower, starts_with, contains, utf8_lossy, decode_utf8_lossy, chars_of, string_of, trim_vec,
    lower_vec, starts_with_exec, contains_exec, sub_vec, seq_eq, concat_vec, copy_string, str_eq,
};

verus! {

broadcast use vstd::string::group_string_axioms;

/// Token counts of one response.
#[derive(Debug, Clone, Copy, PartialEq, Eq, Structural)]
pub struct UsageCapture {
    pub input_tokens: u64,
    pub output_tokens: u64,
    pub total_tokens: u64,
    pub cached_tokens: u64,
    pub reasoning_tokens: u64,
}

/// What a response told of itself.
#[derive(Debug, Clone)]
pub struct ResponseCapture {
    pub usage: Option<UsageCapture>,
    pub response_id: Option<String>,
}

// ---------------------------------------------------------------------------
// Reading usage from a JSON payload
// ---------------------------------------------------------------------------

/// The first of two optional values that is present.
pub open spec fn or_else<T>(a: Option<T>, b: Option<T>) -> Option<T> {
    match a {
        Some(x) => Some(x),
        None => b,
    }
}

/// The usage block of a payload: `usage` at the top, under `response`, or
/// under `response.response`, then `usageMetadata` / `usage_metadata` at the
/// top or under `response`; the first that is present and not `null`.
pub open spec fn usage_block(v: JsonValue) -> Option<JsonValue> {
    let top = Some(v);
    let response = field(v, "response"@);
    or_else(
        non_null_field(top, "usage"@),
        or_else(
            non_null_field(response, "usage"@),
            or_else(
                non_null_field(field_of(response, "response"@), "usage"@),
                or_else(
                    non_null_field(top, "usageMetadata"@),
                    or_else(
                        non_null_field(top, "usage_metadata"@),
                        or_else(
                            non_null_field(response, "usageMetadata"@),
                            non_null_field(response, "usage_metadata"@),
                        ),
                    ),
                ),
            ),
        ),
    )
}

/// A token count: a non-negative integer.
pub open spec fn usage_number(v: Option<JsonValue>) -> Option<u64> {
    match as_u64(v) {
        Some(u) => Some(u),
        None => match as_i64(v) {
            Some(i) => if i >= 0 {
                Some(i as u64)
            } else {
                None
            },
            None => None,
        },
    }
}

/// The first present member among the keys.
pub open spec fn first_field3(v: Option<JsonValue>, a: Seq<char>, b: Seq<char>, c: Seq<char>) -> Option<
    JsonValue,
> {
    or_else(field_of(v, a), or_else(field_of(v, b), field_of(v, c)))
}

/// A count read from the first present of three places, 0 when unreadable.
pub open spec fn count_or_zero(v: Option<JsonValue>) -> u64 {
    match usage_number(v) {
        Some(u) => u,
        None => 0,
    }
}

/// `a + b`, saturating at `u64::MAX`.
pub open spec fn sat_add(a: u64, b: u64) -> u64 {
    if a + b > u64::MAX {
        u64::MAX
    } else {
        (a + b) as u64
    }
}

/// The token counts of a usage block. Input and output counts go by the
/// OpenAI Responses, Chat Completions and Gemini names; the total is the
/// reported one unless it is missing or zero, then the sum of input, output
/// and reasoning tokens.
pub open spec fn block_counts(block: JsonValue) -> UsageCapture {
    let u = Some(block);
    let input = count_or_zero(first_field3(u, "input_tokens"@, "prompt_tokens"@, "promptTokenCount"@));
    let output = count_or_zero(
        first_field3(u, "output_tokens"@, "completion_tokens"@, "candidatesTokenCount"@),
    );
    let explicit_total = usage_number(
        or_else(field_of(u, "total_tokens"@), field_of(u, "totalTokenCount"@)),
    );
    let cached = count_or_zero(
        or_else(
            field_of(u, "cached_tokens"@),
            or_else(
                field_of(field_of(u, "input_tokens_details"@), "cached_tokens"@),
                or_else(
                    field_of(field_of(u, "prompt_tokens_details"@), "cached_tokens"@),
                    field_of(u, "cachedContentTokenCount"@),
                ),
            ),
        ),
    );
    let reasoning = count_or_zero(
        or_else(
            field_of(u, "reasoning_tokens"@),
            or_else(
                field_of(field_of(u, "output_tokens_details"@), "reasoning_tokens"@),
                or_else(
                    field_of(field_of(u, "completion_tokens_details"@), "reasoning_tokens"@),
                    field_of(u, "thoughtsTokenCount"@),
                ),
            ),
        ),
    );
    let total = match explicit_total {
        Some(t) => if t == 0 {
            sat_add(sat_add(input, output), reasoning)
        } else {
            t
        },
        None => sat_add(sat_add(input, output), reasoning),
    };
    UsageCapture {
        input_tokens: input,
        output_tokens: output,
        total_tokens: total,
        cached_tokens: cached,
        reasoning_tokens: reasoning,
    }
}

/// The token counts of a payload, when it has a usage block.
pub open spec fn usage_of(v: JsonValue) -> Option<UsageCapture> {
    match usage_block(v) {
        None => None,
        Some(u) => Some(block_counts(u)),
    }
}

/// The other counts read from a usage block: the reasoning tokens from
/// `reasoning_tokens`, else `output_tokens_details.reasoning_tokens`; the
/// cached tokens from `cached_tokens`, else
/// `input_tokens_details.cached_tokens`; the total from a positive
/// `total_tokens`, and, when the block gives no total, the input, output
/// and reasoning counts added up.
pub proof fn lemma_block_counts_other_fields(b: JsonValue, n: u64)
    ensures
        field(b, "reasoning_tokens"@) == Some(JsonValue::Number(JsonNumber::PosInt(n))) ==> block_counts(
            b,
        ).reasoning_tokens == n,
        field(b, "reasoning_tokens"@) is None && field_of(field(b, "output_tokens_details"@), "reasoning_tokens"@)
            == Some(JsonValue::Number(JsonNumber::PosInt(n))) ==> block_counts(b).reasoning_tokens == n,
        field(b, "cached_tokens"@) == Some(JsonValue::Number(JsonNumber::PosInt(n))) ==> block_counts(b).cached_tokens
            == n,
        field(b, "cached_tokens"@) is None && field_of(field(b, "input_tokens_details"@), "cached_tokens"@) == Some(
            JsonValue::Number(JsonNumber::PosInt(n)),
        ) ==> block_counts(b).cached_tokens == n,
        n > 0 && field(b, "total_tokens"@) == Some(JsonValue::Number(JsonNumber::PosInt(n))) ==> block_counts(
            b,
        ).total_tokens == n,
        field(b, "total_tokens"@) is None && field(b, "totalTokenCount"@) is None ==> block_counts(b).total_tokens
            as int == (if block_counts(b).input_tokens as int + block_counts(b).output_tokens as int + block_counts(
            b,
        ).reasoning_tokens as int <= u64::MAX as int {
            block_counts(b).input_tokens as int + block_counts(b).output_tokens as int + block_counts(
                b,
            ).reasoning_tokens as int
        } else {
            u64::MAX as int
        }),
{
}

fn first_of<'a>(a: Option<&'a JsonValue>, b: Option<&'a JsonValue>) -> (r: Option<&'a JsonValue>)
    ensures
        match r {
            Some(x) => or_else(
                match a {
                    Some(y) => Some(*y),
                    None => None,
                },
                match b {
                    Some(y) => Some(*y),
                    None => None,
                },
            ) == Some(*x),
            None => a is None && b is None,
        },
{
    match a {
        Some(x) => Some(x),
        None => b,
    }
}

fn usage_number_exec(v: Option<&JsonValue>) -> (r: Option<u64>)
    ensures
        r == usage_number(
            match v {
                Some(y) => Some(*y),
                None => None,
            },
        ),
{
    match u64_of(v) {
        Some(u) => Some(u),
        None => match i64_of(v) {
            Some(i) => if i >= 0 {
                Some(i as u64)
            } else {
                None
            },
            None => None,
        },
    }
}

fn count_or_zero_exec(v: Option<&JsonValue>) -> (r: u64)
    ensures
        r == count_or_zero(
            match v {
                Some(y) => Some(*y),
                None => None,
            },
        ),
{
    match usage_number_exec(v) {
        Some(u) => u,
        None => 0,
    }
}

/// The token counts of a payload, if it carries usage.
pub fn extract_usage_capture(value: &JsonValue) -> (r: Option<UsageCapture>)
    ensures
        r == usage_of(*value),
{
    let top = Some(value);
    let response = get_member(value, "response");
    let inner = get_member_of(response, "response");
    let block = first_of(
        non_null_member(top, "usage"),
        first_of(
            non_null_member(response, "usage"),
            first_of(
                non_null_member(inner, "usage"),
                first_of(
                    non_null_member(top, "usageMetadata"),
                    first_of(
                        non_null_member(top, "usage_metadata"),
                        first_of(
                            non_null_member(response, "usageMetadata"),
                            non_null_member(response, "usage_metadata"),
                        ),
                    ),
                ),
            ),
        ),
    );
    let u = match block {
        Some(u) => u,
        None => return None,
    };
    Some(usage_counts(u))
}

/// The token counts of a usage block.
pub fn usage_counts(u: &JsonValue) -> (r: UsageCapture)
    ensures
        r == block_counts(*u),
{
    let input = count_or_zero_exec(
        first_of(
            get_member(u, "input_tokens"),
            first_of(get_member(u, "prompt_tokens"), get_member(u, "promptTokenCount")),
        ),
    );
    let output = count_or_zero_exec(
        first_of(
            get_member(u, "output_tokens"),
            first_of(get_member(u, "completion_tokens"), get_member(u, "candidatesTokenCount")),
        ),
    );
    let explicit_total = usage_number_exec(
        first_of(get_member(u, "total_tokens"), get_member(u, "totalTokenCount")),
    );
    let cached = count_or_zero_exec(
        first_of(
            get_member(u, "cached_tokens"),
            first_of(
                get_member_of(get_member(u, "input_tokens_details"), "cached_tokens"),
                first_of(
                    get_member_of(get_member(u, "prompt_tokens_details"), "cached_tokens"),
                    get_member(u, "cachedContentTokenCount"),
                ),
            ),
        ),
    );
    let reasoning = count_or_zero_exec(
        first_of(
            get_member(u, "reasoning_tokens"),
            first_of(
                get_member_of(get_member(u, "output_tokens_details"), "reasoning_tokens"),
                first_of(
                    get_member_of(get_member(u, "completion_tokens_details"), "reasoning_tokens"),
                    get_member(u, "thoughtsTokenCount"),
                ),
            ),
        ),
    );
    let summed = input.saturating_add(output).saturating_add(reasoning);
    let total = match explicit_total {
        Some(t) => if t == 0 {
            summed
        } else {
            t
        },
        None => summed,
    };
    UsageCapture {
        input_tokens: input,
        output_tokens: output,
        total_tokens: total,
        cached_tokens: cached,
        reasoning_tokens: reasoning,
    }
}

/// The id of a response: a non-null string `id` at the top, else under
/// `response`; trimmed, and only when not blank.
pub open spec fn response_id_of(v: JsonValue) -> Option<Seq<char>> {
    let raw = or_else(
        as_text(non_null_field(Some(v), "id"@)),
        as_text(non_null_field(field(v, "response"@), "id"@)),
    );
    match raw {
        Some(s) => if trim(s).len() > 0 {
            Some(trim(s))
        } else {
            None
        },
        None => None,
    }
}

/// The id of a response, if the payload names one.
pub fn extract_response_id(value: &JsonValue) -> (r: Option<String>)
    ensures
        match r {
            Some(s) => response_id_of(*value) == Some(s@),
            None => response_id_of(*value) is None,
        },
{
    let top = text_of(non_null_member(Some(value), "id"));
    let raw = match top {
        Some(s) => Some(s),
        None => text_of(non_null_member(get_member(value, "response"), "id")),
    };
    match raw {
        Some(s) => {
            let t = trim_vec(&chars_of(s.as_str()));
            if t.len() > 0 {
                Some(string_of(&t))
            } else {
                None
            }
        },
        None => None,
    }
}

// ---------------------------------------------------------------------------
// Collecting from a response body or an event stream
// ---------------------------------------------------------------------------

/// The trimmed, non-blank values of the `data:` lines.
pub open spec fn data_lines(lines: Seq<Seq<char>>) -> Seq<Seq<char>>
    decreases lines.len(),
{
    if lines.len() == 0 {
        Seq::empty()
    } else {
        let kept = data_lines(lines.drop_last());
        let l = trim(lines.last());
        if starts_with(l, "data:"@) && trim(l.skip("data:"@.len() as int)).len() > 0 {
            kept.push(trim(l.skip("data:"@.len() as int)))
        } else {
            kept
        }
    }
}

/// Texts joined by line feeds.
pub open spec fn join_lf(parts: Seq<Seq<char>>) -> Seq<char>
    decreases parts.len(),
{
    if parts.len() == 0 {
        Seq::empty()
    } else if parts.len() == 1 {
        parts[0]
    } else {
        join_lf(parts.drop_last()) + "\n"@ + parts.last()
    }
}

/// The payload of an event: its `data:` values joined by line feeds, or its
/// whole trimmed text when it has none; nothing for an empty or blank event
/// or for `[DONE]`.
pub open spec fn frame_payload(frame: Seq<u8>) -> Option<Seq<char>> {
    if frame.len() == 0 {
        None
    } else {
        let text = utf8_lossy(frame);
        let data = data_lines(lines_of(text));
        let payload = if data.len() == 0 {
            trim(text)
        } else {
            join_lf(data)
        };
        if payload.len() == 0 || payload == "[DONE]"@ {
            None
        } else {
            Some(payload)
        }
    }
}

/// What has been learnt so far: the last usage seen and the first response id.
pub type CaptureState = (Option<UsageCapture>, Option<Seq<char>>);

/// Learning from a payload that parses as JSON: its usage replaces the one
/// seen before; its id is kept only when none was seen.
pub open spec fn observe_payload(s: CaptureState, payload: Seq<char>) -> CaptureState {
    match json_from_text(payload) {
        None => s,
        Some(v) => (
            or_else(usage_of(v), s.0),
            if s.1 is None {
                response_id_of(v)
            } else {
                s.1
            },
        ),
    }
}

/// Learning from one event.
pub open spec fn observe_frame(s: CaptureState, frame: Seq<u8>) -> CaptureState {
    match frame_payload(frame) {
        None => s,
        Some(p) => observe_payload(s, p),
    }
}

/// The first position at or after `i` where an event ends, or -1.
pub open spec fn first_boundary_from(b: Seq<u8>, i: int) -> int
    decreases b.len() - i,
{
    if i < 0 || i >= b.len() {
        -1
    } else if sse_boundary_at(b, i) {
        i
    } else {
        first_boundary_from(b, i + 1)
    }
}

pub(crate) proof fn lemma_first_boundary(b: Seq<u8>, from: int, i: int)
    requires
        0 <= from <= i < b.len(),
        sse_boundary_at(b, i),
        forall|j: int| from <= j < i ==> !#[trigger] sse_boundary_at(b, j),
    ensures
        first_boundary_from(b, from) == i,
    decreases i - from,
{
    if from < i {
        lemma_first_boundary(b, from + 1, i);
    }
}

pub(crate) proof fn lemma_no_boundary(b: Seq<u8>, from: int)
    requires
        0 <= from,
        forall|j: int| from <= j < b.len() ==> !#[trigger] sse_boundary_at(b, j),
    ensures
        first_boundary_from(b, from) == -1,
    decreases b.len() - from,
{
    if from < b.len() {
        lemma_no_boundary(b, from + 1);
    }
}

pub proof fn lemma_first_boundary_bounds(b: Seq<u8>, from: int)
    requires
        0 <= from,
    ensures
        first_boundary_from(b, from) == -1 || (from <= first_boundary_from(b, from) < b.len()
            && sse_boundary_at(b, first_boundary_from(b, from))),
    decreases b.len() - from,
{
    if from < b.len() && !sse_boundary_at(b, from) {
        lemma_first_boundary_bounds(b, from + 1);
    }
}

/// Learning from every complete event in a buffer; what follows the last one
/// is left over.
pub open spec fn drain(s: CaptureState, buffer: Seq<u8>) -> (CaptureState, Seq<u8>)
    decreases buffer.len(),
{
    let i = first_boundary_from(buffer, 0);
    if i < 0 {
        (s, buffer)
    } else {
        proof {
            lemma_first_boundary_bounds(buffer, 0);
        }
        let n: int = if crlf_crlf_at(buffer, i) {
            4
        } else {
            2
        };
        drain(observe_frame(s, buffer.take(i)), buffer.skip(i + n))
    }
}

/// At the end of a stream, the left-over text counts as a last event.
pub open spec fn flush(d: (CaptureState, Seq<u8>)) -> CaptureState {
    if d.1.len() > 0 {
        observe_frame(d.0, d.1)
    } else {
        d.0
    }
}

/// Collects usage and the response id while a response passes through.
pub struct ResponseUsageCollector {
    pub is_stream: bool,
    pub body: Vec<u8>,
    pub stream_buffer: Vec<u8>,
    pub usage: Option<UsageCapture>,
    pub response_id: Option<String>,
}

impl ResponseUsageCollector {
    /// What has been learnt so far.
    pub open spec fn state(&self) -> CaptureState {
        (
            self.usage,
            match self.response_id {
                Some(s) => Some(s@),
                None => None,
            },
        )
    }

    /// A collector for a streamed or a whole response.
    pub fn new(is_stream: bool) -> (r: ResponseUsageCollector)
        ensures
            r.is_stream == is_stream,
            r.body@.len() == 0,
            r.stream_buffer@.len() == 0,
            r.usage is None,
            r.response_id is None,
    {
        ResponseUsageCollector {
            is_stream,
            body: Vec::new(),
            stream_buffer: Vec::new(),
            usage: None,
            response_id: None,
        }
    }

    /// Takes the next chunk of the response: a whole response is kept; a
    /// stream is read event by event as events complete.
    pub fn feed(&mut self, chunk: &[u8])
        ensures
            final(self).is_stream == old(self).is_stream,
            chunk@.len() == 0 ==> final(self).body@ == old(self).body@ && final(self).stream_buffer@
                == old(self).stream_buffer@ && final(self).state() == old(self).state(),
            chunk@.len() > 0 && !old(self).is_stream ==> final(self).body@ == old(self).body@ + chunk@
                && final(self).stream_buffer@ == old(self).stream_buffer@ && final(self).state()
                == old(self).state(),
            chunk@.len() > 0 && old(self).is_stream ==> final(self).body@ == old(self).body@ && (
            final(self).state(),
            final(self).stream_buffer@,
        ) == drain(old(self).state(), old(self).stream_buffer@ + chunk@),
    {
        if chunk.len() == 0 {
            return;
        }
        if self.is_stream {
            append_bytes(&mut self.stream_buffer, chunk);
            self.process_stream_buffer();
        } else {
            append_bytes(&mut self.body, chunk);
        }
    }

    fn process_stream_buffer(&mut self)
        ensures
            final(self).is_stream == old(self).is_stream,
            final(self).body@ == old(self).body@,
            (final(self).state(), final(self).stream_buffer@) == drain(
                old(self).state(),
                old(self).stream_buffer@,
            ),
    {
        loop
            invariant
                self.is_stream == old(self).is_stream,
                self.body@ == old(self).body@,
                drain(self.state(), self.stream_buffer@) == drain(
                    old(self).state(),
                    old(self).stream_buffer@,
                ),
            decreases self.stream_buffer@.len(),
        {
            let ghost buf = self.stream_buffer@;
            match find_sse_frame_boundary(self.stream_buffer.as_slice()) {
                None => {
                    proof {
                        lemma_no_boundary(buf, 0);
                    }
                    return;
                },
                Some((i, n)) => {
                    proof {
                        lemma_first_boundary(buf, 0, i as int);
                    }
                    let len = self.stream_buffer.len();
                    assert(i + n <= len);
                    let frame = bytes_range(&self.stream_buffer, 0, i);
                    let rest = bytes_range(&self.stream_buffer, i + n, self.stream_buffer.len());
                    proof {
                        assert(frame@ =~= buf.take(i as int));
                        assert(rest@ =~= buf.skip(i + n));
                    }
                    self.stream_buffer = rest;
                    self.process_stream_frame(&frame);
                },
            }
        }
    }

    fn process_stream_frame(&mut self, frame: &Vec<u8>)
        ensures
            final(self).is_stream == old(self).is_stream,
            final(self).body@ == old(self).body@,
            final(self).stream_buffer@ == old(self).stream_buffer@,
            final(self).state() == observe_frame(old(self).state(), frame@),
    {
        match frame_payload_exec(frame) {
            None => {},
            Some(payload) => {
                match parse_json_text(payload.as_str()) {
                    None => {},
                    Some(value) => {
                        match extract_usage_capture(&value) {
                            Some(u) => {
                                self.usage = Some(u);
                            },
                            None => {},
                        }
                        if self.response_id.is_none() {
                            self.response_id = extract_response_id(&value);
                        }
                    },
                }
            },
        }
    }

    /// What the response told: for a stream, what its events told, the text
    /// after the last complete event counting as one more event; for a whole
    /// response, what its body told when it parses as JSON.
    pub fn finish(self) -> (r: ResponseCapture)
        ensures
            self.is_stream ==> (r.usage, match r.response_id {
                Some(s) => Some(s@),
                None => None,
            }) == flush(drain(self.state(), self.stream_buffer@)),
            !self.is_stream ==> (r.usage, match r.response_id {
                Some(s) => Some(s@),
                None => None,
            }) == match json_from_bytes(self.body@) {
                Some(v) => (usage_of(v), response_id_of(v)),
                None => (None, None),
            },
    {
        let mut this = self;
        if this.is_stream {
            this.process_stream_buffer();
            if this.stream_buffer.len() > 0 {
                let tail = bytes_range(&this.stream_buffer, 0, this.stream_buffer.len());
                assert(tail@ =~= this.stream_buffer@);
                this.stream_buffer = Vec::new();
                this.process_stream_frame(&tail);
            }
            ResponseCapture { usage: this.usage, response_id: this.response_id }
        } else {
            match parse_json_bytes(this.body.as_slice()) {
                Some(v) => ResponseCapture {
                    usage: extract_usage_capture(&v),
                    response_id: extract_response_id(&v),
                },
                None => ResponseCapture { usage: None, response_id: None },
            }
        }
    }
}

fn append_bytes(v: &mut Vec<u8>, chunk: &[u8])
    ensures
        final(v)@ == old(v)@ + chunk@,
{
    let mut i: usize = 0;
    while i < chunk.len()
        invariant
            i <= chunk@.len(),
            v@ == old(v)@ + chunk@.take(i as int),
        decreases chunk@.len() - i,
    {
        v.push(chunk[i]);
        assert(chunk@.take(i as int + 1) =~= chunk@.take(i as int).push(chunk@[i as int]));
        i = i + 1;
    }
    assert(chunk@.take(chunk@.len() as int) =~= chunk@);
}

pub(crate) fn bytes_range(v: &Vec<u8>, from: usize, to: usize) -> (r: Vec<u8>)
    requires
        from <= to <= v@.len(),
    ensures
        r@ == v@.subrange(from as int, to as int),
{
    let mut r: Vec<u8> = Vec::new();
    let mut i: usize = from;
    while i < to
        invariant
            from <= i <= to <= v@.len(),
            r@ == v@.subrange(from as int, i as int),
        decreases to - i,
    {
        r.push(v[i]);
        assert(v@.subrange(from as int, i as int + 1) =~= v@.subrange(from as int, i as int).push(v@[i as int]));
        i = i + 1;
    }
    r
}

/// The payload of an event, if it has one.
pub fn frame_payload_exec(frame: &Vec<u8>) -> (r: Option<String>)
    ensures
        match r {
            Some(p) => frame_payload(frame@) == Some(p@),
            None => frame_payload(frame@) is None,
        },
{
    if frame.len() == 0 {
        return None;
    }
    let text = decode_utf8_lossy(frame.as_slice());
    let tv = chars_of(text.as_str());
    let lines = lines_exec(&tv);
    let prefix = chars_of("data:");
    let mut data: Vec<Vec<char>> = Vec::new();
    let mut i: usize = 0;
    while i < lines.len()
        invariant
            i <= lines.len(),
            prefix@ == "data:"@,
            pieces(data@) == data_lines(pieces(lines@).take(i as int)),
        decreases lines.len() - i,
    {
        let ghost t = pieces(lines@).take(i as int + 1);
        proof {
            assert(t.drop_last() =~= pieces(lines@).take(i as int));
            assert(t.last() == lines@[i as int]@);
        }
        let l = trim_vec(&lines[i]);
        if starts_with_exec(&l, &prefix) {
            let after = sub_vec(&l, prefix.len(), l.len());
            assert(after@ =~= l@.skip("data:"@.len() as int));
            let rest = trim_vec(&after);
            if rest.len() > 0 {
                let ghost before = data@;
                data.push(rest);
                assert(pieces(data@) =~= pieces(before).push(rest@));
            }
        }
        i = i + 1;
    }
    proof {
        assert(pieces(lines@).take(lines@.len() as int) =~= pieces(lines@));
    }
    let payload = if data.len() == 0 {
        trim_vec(&tv)
    } else {
        join_lf_exec(&data)
    };
    let done = chars_of("[DONE]");
    if payload.len() == 0 || seq_eq(&payload, &done) {
        None
    } else {
        Some(string_of(&payload))
    }
}

fn join_lf_exec(parts: &Vec<Vec<char>>) -> (r: Vec<char>)
    ensures
        r@ == join_lf(pieces(parts@)),
{
    let mut r: Vec<char> = Vec::new();
    let mut i: usize = 0;
    while i < parts.len()
        invariant
            i <= parts.len(),
            r@ == join_lf(pieces(parts@).take(i as int)),
        decreases parts.len() - i,
    {
        let ghost t = pieces(parts@).take(i as int + 1);
        proof {
            assert(t.drop_last() =~= pieces(parts@).take(i as int));
            assert(t.last() == parts@[i as int]@);
        }
        if i > 0 {
            r.push('\n');
        }
        r = concat_vec(&r, &parts[i]);
        proof {
            reveal_strlit("\n");
            if i > 0 {
                assert(r@ =~= join_lf(t.drop_last()) + "\n"@ + t.last());
            } else {
                assert(t.len() == 1);
            }
        }
        i = i + 1;
    }
    proof {
        assert(pieces(parts@).take(parts@.len() as int) =~= pieces(parts@));
    }
    r
}

/// A request wants an event stream: its `accept` header names
/// `text/event-stream`, or its JSON body sets `"stream": true`.
pub open spec fn stream_requested(headers: Map<Seq<char>, Seq<char>>, body: Seq<u8>) -> bool {
    (headers.contains_key("accept"@) && contains(lower(headers["accept"@]), "text/event-stream"@))
        || match json_from_bytes(body) {
        Some(v) => as_bool(field(v, "stream"@)) == Some(true),
        None => false,
    }
}

/// Whether a request wants an event stream.
pub fn is_stream_request(headers: &Headers, body: &[u8]) -> (r: bool)
    requires
        headers.wf(),
    ensures
        r == stream_requested(headers.view(), body@),
{
    match headers.get("accept") {
        Some(accept) => {
            if contains_exec(&lower_vec(&chars_of(accept.as_str())), &chars_of("text/event-stream")) {
                return true;
            }
        },
        None => {},
    }
    match parse_json_bytes(body) {
        Some(v) => match bool_of(get_member(&v, "stream")) {
            Some(b) => b,
            None => false,
        },
        None => false,
    }
}

/// The event types that close a response: `response.completed` and
/// `response.done`.
pub open spec fn completion_event(event_type: Seq<char>) -> bool {
    event_type == "response.completed"@ || event_type == "response.done"@
}

/// Whether an event type closes a response.
pub fn is_responses_completion_event(event_type: &str) -> (r: bool)
    ensures
        r == completion_event(event_type@),
{
    str_eq(event_type, "response.completed") || str_eq(event_type, "response.done")
}

} // verus!
