//! The images a Responses reply carries, given back in the Images API
//! shape: as a whole reply, or as an event stream of partial and completed
//! images.
use vstd::prelude::*;
use vstd::utf8::encode_utf8;
use crate::chat_payload::{payload_root, output_items, chat_created, i64_number, i64_value, text_or_empty, text_or_empty_exec, response_payload_root};
use crate::chat_stream::{sse, bytes_of};
use crate::clock::now_seconds;
use crate::http::{crlf_crlf_at, find_sse_frame_boundary};
use crate::json::{
    JsonValue, JsonView, field, field_of, as_text, as_i64, json_from_text, parse_json_text, get_member, text_of,
    i64_of, json_view, items_view, entries_view, push_entry, push_item, clone_json, json_to_string, json_text,
    lemma_items_view,
};
use crate::responses::{event_name, event_type, event_name_exec};
use crate::split::lines_of;
use crate::text::{
    opt_string_text, trim, lower, eq_ignore_case, utf8_lossy, chars_of, string_of, trim_vec, lower_vec, trim_str,
    concat_str, str_eq, lit, copy_string, has_char, has_char_exec, eq_ignore_case_exec, seq_eq,
};
use crate::usage::{
    UsageCapture, ResponseCapture, CaptureState, usage_of, response_id_of, extract_usage_capture, extract_response_id,
    frame_payload, frame_payload_exec, first_boundary_from, lemma_first_boundary, lemma_no_boundary,
    lemma_first_boundary_bounds, bytes_range, completion_event, is_responses_completion_event, or_else,
};

verus! {

broadcast use vstd::string::group_string_axioms;

/// The media type of an image format: a type given in full stays; `jpg`
/// and `jpeg` are JPEG, `webp` is WebP, anything else PNG.
pub open spec fn mime_type(output_format: Seq<char>) -> Seq<char> {
    let f = trim(output_format);
    if has_char(f, '/') {
        f
    } else if lower(f) == "jpg"@ || lower(f) == "jpeg"@ {
        "image/jpeg"@
    } else if lower(f) == "webp"@ {
        "image/webp"@
    } else {
        "image/png"@
    }
}

/// The media type of an image format.
pub fn mime_type_from_output_format(output_format: &str) -> (r: String)
    ensures
        r@ == mime_type(output_format@),
{
    let f = trim_vec(&chars_of(output_format));
    if has_char_exec(&f, '/') {
        return string_of(&f);
    }
    let l = lower_vec(&f);
    if seq_eq(&l, &chars_of("jpg")) || seq_eq(&l, &chars_of("jpeg")) {
        lit("image/jpeg")
    } else if seq_eq(&l, &chars_of("webp")) {
        lit("image/webp")
    } else {
        lit("image/png")
    }
}

/// One generated image: its data, the revised prompt, and its format,
/// size, background and quality, each trimmed.
#[derive(Debug)]
pub struct ImageCallResult {
    pub result: String,
    pub revised_prompt: String,
    pub output_format: String,
    pub size: String,
    pub background: String,
    pub quality: String,
}

/// An image by its texts.
pub type ImageView = (Seq<char>, Seq<char>, Seq<char>, Seq<char>, Seq<char>, Seq<char>);

/// The view of an image.
pub open spec fn image_view(r: ImageCallResult) -> ImageView {
    (r.result@, r.revised_prompt@, r.output_format@, r.size@, r.background@, r.quality@)
}

/// The images of output items: the image generation calls with a
/// non-blank result.
pub open spec fn image_results(items: Seq<JsonValue>) -> Seq<ImageView>
    decreases items.len(),
{
    if items.len() == 0 {
        Seq::empty()
    } else {
        let before = image_results(items.drop_last());
        let it = items.last();
        if as_text(field(it, "type"@)) == Some("image_generation_call"@) && as_text(field(it, "result"@)) is Some
            && trim(as_text(field(it, "result"@)).unwrap()).len() > 0 {
            before.push(
                (
                    trim(as_text(field(it, "result"@)).unwrap()),
                    trim(text_or_empty(it, "revised_prompt"@)),
                    trim(text_or_empty(it, "output_format"@)),
                    trim(text_or_empty(it, "size"@)),
                    trim(text_or_empty(it, "background"@)),
                    trim(text_or_empty(it, "quality"@)),
                ),
            )
        } else {
            before
        }
    }
}

/// The image tool's usage of a reply: `tool_usage.image_gen`, when an object.
pub open spec fn image_usage(v: JsonValue) -> Option<JsonValue> {
    match field_of(field(payload_root(v), "tool_usage"@), "image_gen"@) {
        Some(u) => if u is Object {
            Some(u)
        } else {
            None
        },
        None => None,
    }
}

fn images_of(items: &Vec<JsonValue>) -> (r: Vec<ImageCallResult>)
    ensures
        r@.map_values(|x: ImageCallResult| image_view(x)) == image_results(items@),
{
    let mut out: Vec<ImageCallResult> = Vec::new();
    let mut i: usize = 0;
    while i < items.len()
        invariant
            i <= items@.len(),
            out@.map_values(|x: ImageCallResult| image_view(x)) == image_results(items@.take(i as int)),
        decreases items@.len() - i,
    {
        proof {
            assert(items@.take(i as int + 1).drop_last() =~= items@.take(i as int));
        }
        let it = &items[i];
        let is_call = match text_of(get_member(it, "type")) {
            Some(t) => str_eq(t.as_str(), "image_generation_call"),
            None => false,
        };
        if is_call {
            match text_of(get_member(it, "result")) {
                Some(res) => {
                    let result = trim_str(res.as_str());
                    if chars_of(result.as_str()).len() > 0 {
                        let entry = ImageCallResult {
                            result,
                            revised_prompt: trim_str(text_or_empty_exec(it, "revised_prompt").as_str()),
                            output_format: trim_str(text_or_empty_exec(it, "output_format").as_str()),
                            size: trim_str(text_or_empty_exec(it, "size").as_str()),
                            background: trim_str(text_or_empty_exec(it, "background").as_str()),
                            quality: trim_str(text_or_empty_exec(it, "quality").as_str()),
                        };
                        let ghost before = out@;
                        out.push(entry);
                        proof {
                            assert(out@.map_values(|x: ImageCallResult| image_view(x)) =~= before.map_values(
                                |x: ImageCallResult| image_view(x),
                            ).push(image_view(out@.last())));
                        }
                    }
                },
                None => {},
            }
        }
        i = i + 1;
    }
    assert(items@.take(items@.len() as int) =~= items@);
    out
}

/// The images of a reply, its creation time (from the clock's `now_s` when
/// it has none), the image tool's usage, and the first image.
pub fn extract_images_from_responses_payload_at(response_body: &JsonValue, now_s: i64) -> (r: (
    Vec<ImageCallResult>,
    i64,
    Option<JsonValue>,
    Option<ImageCallResult>,
))
    ensures
        r.0@.map_values(|x: ImageCallResult| image_view(x)) == image_results(output_items(*response_body)),
        r.1 == chat_created(payload_root(*response_body), now_s),
        match image_usage(*response_body) {
            Some(u) => r.2 matches Some(x) && json_view(x) == json_view(u),
            None => r.2 is None,
        },
        match r.3 {
            Some(f) => image_results(output_items(*response_body)).len() > 0 && image_view(f) == image_results(
                output_items(*response_body),
            )[0],
            None => image_results(output_items(*response_body)).len() == 0,
        },
{
    let root = response_payload_root(response_body);
    let created_found = match get_member(root, "created_at") {
        Some(x) => i64_of(Some(x)),
        None => i64_of(get_member(root, "created")),
    };
    let created = match created_found {
        Some(c) => c,
        None => now_s,
    };
    let results = match get_member(root, "output") {
        Some(JsonValue::Array(items)) => images_of(items),
        _ => {
            let empty: Vec<JsonValue> = Vec::new();
            proof {
                assert(empty@ =~= output_items(*response_body));
            }
            images_of(&empty)
        },
    };
    let first = if results.len() > 0 {
        let f = &results[0];
        Some(ImageCallResult {
            result: copy_string(&f.result),
            revised_prompt: copy_string(&f.revised_prompt),
            output_format: copy_string(&f.output_format),
            size: copy_string(&f.size),
            background: copy_string(&f.background),
            quality: copy_string(&f.quality),
        })
    } else {
        None
    };
    proof {
        assert(results@.map_values(|x: ImageCallResult| image_view(x)).len() == results@.len());
        if results@.len() > 0 {
            assert(results@.map_values(|x: ImageCallResult| image_view(x))[0] == image_view(results@[0]));
        }
    }
    let usage = match get_member_of_opt(get_member(root, "tool_usage"), "image_gen") {
        Some(u) => match u {
            JsonValue::Object(_) => Some(clone_json(u)),
            _ => None,
        },
        None => None,
    };
    (results, created, usage, first)
}

fn get_member_of_opt<'a>(v: Option<&'a JsonValue>, key: &str) -> (r: Option<&'a JsonValue>)
    ensures
        r matches Some(x) ==> field_of(
            match v {
                Some(y) => Some(*y),
                None => None,
            },
            key@,
        ) == Some(*x),
        r is None ==> field_of(
            match v {
                Some(y) => Some(*y),
                None => None,
            },
            key@,
        ) is None,
{
    crate::json::get_member_of(v, key)
}

/// The data of one image in the Images API reply: a `data:` URL when URLs
/// are asked for, else the base64 data; with the revised prompt when
/// there is one.
pub open spec fn image_data_view(img: ImageView, as_url: bool) -> JsonView {
    let first = if as_url {
        ("url"@, JsonView::Str("data:"@ + mime_type(img.2) + ";base64,"@ + img.0))
    } else {
        ("b64_json"@, JsonView::Str(img.0))
    };
    JsonView::Object(
        if img.1.len() > 0 {
            seq![first, ("revised_prompt"@, JsonView::Str(img.1))]
        } else {
            seq![first]
        },
    )
}

/// The data entries of the images.
pub open spec fn images_data(imgs: Seq<ImageView>, as_url: bool) -> Seq<JsonView>
    decreases imgs.len(),
{
    if imgs.len() == 0 {
        Seq::empty()
    } else {
        images_data(imgs.drop_last(), as_url).push(image_data_view(imgs.last(), as_url))
    }
}

/// A member when its text is not empty.
pub open spec fn with_text(e: Seq<(Seq<char>, JsonView)>, key: Seq<char>, t: Seq<char>) -> Seq<(Seq<char>, JsonView)> {
    if t.len() > 0 {
        e.push((key, JsonView::Str(t)))
    } else {
        e
    }
}

/// A reply in the Images API shape: its creation time and image data, the
/// first image's background, format, quality and size, and the image
/// tool's usage; an error when the reply has no image.
pub open spec fn images_payload(v: JsonValue, response_format: Seq<char>, now_s: i64) -> Result<JsonView, Seq<char>> {
    let imgs = image_results(output_items(v));
    if imgs.len() == 0 {
        Err("upstream did not return image output"@)
    } else {
        let rf = if trim(response_format).len() == 0 {
            "b64_json"@
        } else {
            trim(response_format)
        };
        let first = imgs[0];
        let e0 = seq![
            ("created"@, i64_number(chat_created(payload_root(v), now_s))),
            ("data"@, JsonView::Array(images_data(imgs, eq_ignore_case(rf, "url"@)))),
        ];
        let e1 = with_text(e0, "background"@, first.4);
        let e2 = with_text(e1, "output_format"@, first.2);
        let e3 = with_text(e2, "quality"@, first.5);
        let e4 = with_text(e3, "size"@, first.3);
        let e5 = match image_usage(v) {
            Some(u) => e4.push(("usage"@, json_view(u))),
            None => e4,
        };
        Ok(JsonView::Object(e5))
    }
}

fn image_data_value(img: &ImageCallResult, as_url: bool) -> (r: JsonValue)
    ensures
        json_view(r) == image_data_view(image_view(*img), as_url),
{
    let mut item: Vec<(String, JsonValue)> = Vec::new();
    if as_url {
        let mime = mime_type_from_output_format(img.output_format.as_str());
        let head = concat_str("data:", mime.as_str());
        let head = concat_str(head.as_str(), ";base64,");
        push_entry(&mut item, "url", JsonValue::String(concat_str(head.as_str(), img.result.as_str())));
    } else {
        push_entry(&mut item, "b64_json", JsonValue::String(copy_string(&img.result)));
    }
    let ghost base = entries_view(item@);
    if chars_of(img.revised_prompt.as_str()).len() > 0 {
        push_entry(&mut item, "revised_prompt", JsonValue::String(copy_string(&img.revised_prompt)));
    }
    proof {
        let first = if as_url {
            ("url"@, JsonView::Str("data:"@ + mime_type(img.output_format@) + ";base64,"@ + img.result@))
        } else {
            ("b64_json"@, JsonView::Str(img.result@))
        };
        assert(base =~= seq![first]);
        assert(entries_view(item@) =~= image_data_view(image_view(*img), as_url)->Object_0);
    }
    JsonValue::Object(item)
}

fn push_text_if(e: &mut Vec<(String, JsonValue)>, key: &str, t: &String)
    ensures
        entries_view(final(e)@) == with_text(entries_view(old(e)@), key@, t@),
{
    if chars_of(t.as_str()).len() > 0 {
        push_entry(e, key, JsonValue::String(copy_string(t)));
    }
}

/// A reply in the Images API shape, with the given time for a reply that
/// has none.
pub fn build_images_api_payload_at(response_body: &JsonValue, response_format: &str, now_s: i64) -> (r: Result<
    JsonValue,
    String,
>)
    ensures
        match images_payload(*response_body, response_format@, now_s) {
            Ok(v) => r matches Ok(x) && json_view(x) == v,
            Err(e) => r matches Err(s) && s@ == e,
        },
{
    let (results, created, usage, first) = extract_images_from_responses_payload_at(response_body, now_s);
    if results.len() == 0 {
        return Err(lit("upstream did not return image output"));
    }
    let rf = trim_str(response_format);
    let rf = if chars_of(rf.as_str()).len() == 0 {
        lit("b64_json")
    } else {
        rf
    };
    let as_url = eq_ignore_case_exec(&chars_of(rf.as_str()), &chars_of("url"));
    let ghost imgs = results@.map_values(|x: ImageCallResult| image_view(x));
    let mut data: Vec<JsonValue> = Vec::new();
    let mut i: usize = 0;
    while i < results.len()
        invariant
            i <= results@.len(),
            imgs == results@.map_values(|x: ImageCallResult| image_view(x)),
            items_view(data@) == images_data(imgs.take(i as int), as_url),
        decreases results@.len() - i,
    {
        proof {
            assert(imgs.take(i as int + 1).drop_last() =~= imgs.take(i as int));
            assert(imgs.take(i as int + 1).last() == image_view(results@[i as int]));
        }
        push_item(&mut data, image_data_value(&results[i], as_url));
        i = i + 1;
    }
    proof {
        assert(imgs.take(imgs.len() as int) =~= imgs);
    }
    let mut out: Vec<(String, JsonValue)> = Vec::new();
    push_entry(&mut out, "created", i64_value(created));
    push_entry(&mut out, "data", JsonValue::Array(data));
    proof {
        assert(entries_view(out@) =~= seq![
            ("created"@, i64_number(created)),
            ("data"@, JsonView::Array(images_data(imgs, as_url))),
        ]);
    }
    match first {
        Some(meta) => {
            push_text_if(&mut out, "background", &meta.background);
            push_text_if(&mut out, "output_format", &meta.output_format);
            push_text_if(&mut out, "quality", &meta.quality);
            push_text_if(&mut out, "size", &meta.size);
        },
        None => {},
    }
    match usage {
        Some(u) => push_entry(&mut out, "usage", u),
        None => {},
    }
    Ok(JsonValue::Object(out))
}

/// A reply in the Images API shape, with the current time for a reply that
/// has none.
pub fn build_images_api_payload(response_body: &JsonValue, response_format: &str) -> (r: Result<JsonValue, String>)
    ensures
        exists|s: i64|
            match #[trigger] images_payload(*response_body, response_format@, s) {
                Ok(v) => r matches Ok(x) && json_view(x) == v,
                Err(e) => r matches Err(m) && m@ == e,
            },
{
    let s = now_seconds();
    let r = build_images_api_payload_at(response_body, response_format, s);
    proof {
        let _ = images_payload(*response_body, response_format@, s);
    }
    r
}

/// A value as one named event of the image stream.
pub open spec fn named_sse(name: Seq<char>, v: JsonView) -> Seq<char> {
    let n = trim(name);
    (if n.len() > 0 {
        "event: "@ + n + "\n"@
    } else {
        Seq::empty()
    }) + sse(v)
}

/// The response format of an image stream: trimmed and lowercased, else
/// `b64_json`.
pub open spec fn stream_format(f: Seq<char>) -> Seq<char> {
    if trim(f).len() == 0 {
        "b64_json"@
    } else {
        lower(trim(f))
    }
}

/// The image member of a stream event.
pub open spec fn image_entry(as_url: bool, b64: Seq<char>, format: Seq<char>) -> (Seq<char>, JsonView) {
    if as_url {
        ("url"@, JsonView::Str("data:"@ + mime_type(format) + ";base64,"@ + b64))
    } else {
        ("b64_json"@, JsonView::Str(b64))
    }
}

/// The completed-image events of a stream.
pub open spec fn completed_events(imgs: Seq<ImageView>, as_url: bool, ev: Seq<char>, usage: Option<JsonView>) -> Seq<char>
    decreases imgs.len(),
{
    if imgs.len() == 0 {
        Seq::empty()
    } else {
        let img = imgs.last();
        let base = seq![("type"@, JsonView::Str(ev)), image_entry(as_url, img.0, img.2)];
        let data = match usage {
            Some(u) => base.push(("usage"@, u)),
            None => base,
        };
        completed_events(imgs.drop_last(), as_url, ev, usage) + named_sse(ev, JsonView::Object(data))
    }
}

/// What a parsed event does to an image stream: a partial image is passed
/// on; a closing event gives each image, or an error when there is none.
pub open spec fn image_event(
    cap: CaptureState,
    event: JsonValue,
    name: Option<Seq<char>>,
    format: Seq<char>,
    prefix: Seq<char>,
) -> (CaptureState, Seq<char>) {
    let cap1 = (
        or_else(usage_of(event), cap.0),
        if cap.1 is None {
            response_id_of(event)
        } else {
            cap.1
        },
    );
    let ty = event_type(event, name);
    let as_url = format == "url"@;
    if ty == "response.image_generation_call.partial_image"@ {
        match as_text(field(event, "partial_image_b64"@)) {
            Some(b) if trim(b).len() > 0 => {
                let ev = prefix + ".partial_image"@;
                let idx = match as_i64(field(event, "partial_image_index"@)) {
                    Some(i) => i,
                    None => 0,
                };
                let data = seq![
                    ("type"@, JsonView::Str(ev)),
                    ("partial_image_index"@, i64_number(idx)),
                    image_entry(as_url, trim(b), text_or_empty(event, "output_format"@)),
                ];
                (cap1, named_sse(ev, JsonView::Object(data)))
            },
            _ => (cap1, Seq::empty()),
        }
    } else if completion_event(ty) {
        let imgs = image_results(output_items(event));
        if imgs.len() == 0 {
            (
                cap1,
                named_sse(
                    "error"@,
                    JsonView::Object(seq![("error"@, JsonView::Str("upstream did not return image output"@))]),
                ),
            )
        } else {
            let usage = match image_usage(event) {
                Some(u) => Some(json_view(u)),
                None => None,
            };
            (cap1, completed_events(imgs, as_url, prefix + ".completed"@, usage))
        }
    } else {
        (cap1, Seq::empty())
    }
}

/// What one upstream event does to an image stream.
pub open spec fn image_frame(cap: CaptureState, frame: Seq<u8>, format: Seq<char>, prefix: Seq<char>) -> (
    CaptureState,
    Seq<char>,
) {
    match frame_payload(frame) {
        None => (cap, Seq::empty()),
        Some(p) => match json_from_text(p) {
            None => (cap, Seq::empty()),
            Some(event) => image_event(cap, event, event_name(lines_of(utf8_lossy(frame))), format, prefix),
        },
    }
}

/// What every complete event of a buffer does to an image stream.
pub open spec fn drain_images(cap: CaptureState, buffer: Seq<u8>, format: Seq<char>, prefix: Seq<char>) -> (
    CaptureState,
    Seq<u8>,
    Seq<char>,
)
    decreases buffer.len(),
{
    let i = first_boundary_from(buffer, 0);
    if i < 0 {
        (cap, buffer, Seq::empty())
    } else {
        proof {
            lemma_first_boundary_bounds(buffer, 0);
        }
        let n: int = if crlf_crlf_at(buffer, i) {
            4
        } else {
            2
        };
        let (c1, out1) = image_frame(cap, buffer.take(i), format, prefix);
        let (c2, rest, out2) = drain_images(c1, buffer.skip(i + n), format, prefix);
        (c2, rest, out1 + out2)
    }
}

/// Turns a Responses event stream into an Images API event stream.
pub struct ImageStreamTransformer {
    response_format: String,
    stream_prefix: String,
    stream_buffer: Vec<u8>,
    response_capture: ResponseCapture,
}

fn named_sse_text(name: &str, v: &JsonValue) -> (r: String)
    ensures
        r@ == named_sse(name@, json_view(*v)),
{
    let n = trim_str(name);
    let head = if chars_of(n.as_str()).len() > 0 {
        let a = concat_str("event: ", n.as_str());
        concat_str(a.as_str(), "\n")
    } else {
        String::new()
    };
    let body = match json_to_string(v) {
        Ok(text) => {
            let a = concat_str("data: ", text.as_str());
            concat_str(a.as_str(), "\n\n")
        },
        Err(_) => lit("data: {\"error\":\"failed to encode stream payload\"}\n\n"),
    };
    concat_str(head.as_str(), body.as_str())
}

fn image_entry_value(as_url: bool, b64: &str, format: &str) -> (r: (String, JsonValue))
    ensures
        (r.0@, json_view(r.1)) == image_entry(as_url, b64@, format@),
{
    if as_url {
        let mime = mime_type_from_output_format(format);
        let head = concat_str("data:", mime.as_str());
        let head = concat_str(head.as_str(), ";base64,");
        (lit("url"), JsonValue::String(concat_str(head.as_str(), b64)))
    } else {
        (lit("b64_json"), JsonValue::String(lit(b64)))
    }
}

impl ImageStreamTransformer {
    /// What was captured of usage and response id.
    pub closed spec fn capture(&self) -> CaptureState {
        (self.response_capture.usage, opt_string_text(self.response_capture.response_id))
    }

    /// What is waiting for the rest of its event.
    pub closed spec fn pending(&self) -> Seq<u8> {
        self.stream_buffer@
    }

    /// The response format of the stream.
    pub closed spec fn format(&self) -> Seq<char> {
        self.response_format@
    }

    /// The prefix of the stream's event names.
    pub closed spec fn prefix(&self) -> Seq<char> {
        self.stream_prefix@
    }

    /// A transformer for an image request's response format and event
    /// prefix.
    pub fn new(response_format: &str, stream_prefix: &str) -> (r: Self)
        ensures
            r.capture() == (None::<UsageCapture>, None::<Seq<char>>),
            r.pending() == Seq::<u8>::empty(),
            r.format() == stream_format(response_format@),
            r.prefix() == stream_prefix@,
    {
        let t = trim_vec(&chars_of(response_format));
        let format = if t.len() == 0 {
            lit("b64_json")
        } else {
            string_of(&lower_vec(&t))
        };
        ImageStreamTransformer {
            response_format: format,
            stream_prefix: lit(stream_prefix),
            stream_buffer: Vec::new(),
            response_capture: ResponseCapture { usage: None, response_id: None },
        }
    }

    fn process_event(&mut self, event: &JsonValue, name: Option<String>) -> (r: String)
        ensures
            (final(self).capture(), r@) == image_event(
                old(self).capture(),
                *event,
                opt_string_text(name),
                old(self).format(),
                old(self).prefix(),
            ),
            final(self).pending() == old(self).pending(),
            final(self).format() == old(self).format(),
            final(self).prefix() == old(self).prefix(),
    {
        match extract_usage_capture(event) {
            Some(u) => {
                self.response_capture.usage = Some(u);
            },
            None => {},
        }
        if self.response_capture.response_id.is_none() {
            self.response_capture.response_id = extract_response_id(event);
        }
        let ty = match text_of(get_member(event, "type")) {
            Some(t) => t,
            None => match name {
                Some(n) => n,
                None => String::new(),
            },
        };
        let as_url = str_eq(self.response_format.as_str(), "url");
        if str_eq(ty.as_str(), "response.image_generation_call.partial_image") {
            let b64 = match text_of(get_member(event, "partial_image_b64")) {
                Some(b) => {
                    let t = trim_str(b.as_str());
                    if chars_of(t.as_str()).len() == 0 {
                        return String::new();
                    }
                    t
                },
                None => return String::new(),
            };
            let ev = concat_str(self.stream_prefix.as_str(), ".partial_image");
            let idx = match i64_of(get_member(event, "partial_image_index")) {
                Some(i) => i,
                None => 0,
            };
            let format = text_or_empty_exec(event, "output_format");
            let (k, v) = image_entry_value(as_url, b64.as_str(), format.as_str());
            let mut data: Vec<(String, JsonValue)> = Vec::new();
            push_entry(&mut data, "type", JsonValue::String(copy_string(&ev)));
            push_entry(&mut data, "partial_image_index", i64_value(idx));
            push_entry(&mut data, k.as_str(), v);
            let value = JsonValue::Object(data);
            proof {
                assert(entries_view(data@) =~= seq![
                    ("type"@, JsonView::Str(ev@)),
                    ("partial_image_index"@, i64_number(idx)),
                    image_entry(as_url, b64@, format@),
                ]);
            }
            return named_sse_text(ev.as_str(), &value);
        }
        if is_responses_completion_event(ty.as_str()) {
            let imgs = match get_member(response_payload_root(event), "output") {
                Some(JsonValue::Array(items)) => images_of(items),
                _ => {
                    let empty: Vec<JsonValue> = Vec::new();
                    proof {
                        assert(empty@ =~= output_items(*event));
                    }
                    images_of(&empty)
                },
            };
            if imgs.len() == 0 {
                let mut err: Vec<(String, JsonValue)> = Vec::new();
                push_entry(&mut err, "error", JsonValue::String(lit("upstream did not return image output")));
                proof {
                    assert(entries_view(err@) =~= seq![("error"@, JsonView::Str("upstream did not return image output"@))]);
                }
                return named_sse_text("error", &JsonValue::Object(err));
            }
            let usage = match get_member_of_opt(get_member(response_payload_root(event), "tool_usage"), "image_gen") {
                Some(u) => match u {
                    JsonValue::Object(_) => Some(u),
                    _ => None,
                },
                None => None,
            };
            let ghost usage_v: Option<JsonView> = match image_usage(*event) {
                Some(u) => Some(json_view(u)),
                None => None,
            };
            let ev = concat_str(self.stream_prefix.as_str(), ".completed");
            let ghost views = imgs@.map_values(|x: ImageCallResult| image_view(x));
            let mut out = String::new();
            let mut i: usize = 0;
            while i < imgs.len()
                invariant
                    i <= imgs@.len(),
                    views == imgs@.map_values(|x: ImageCallResult| image_view(x)),
                    out@ == completed_events(views.take(i as int), as_url, ev@, usage_v),
                    match usage {
                        Some(u) => usage_v == Some(json_view(*u)),
                        None => usage_v is None,
                    },
                decreases imgs@.len() - i,
            {
                proof {
                    assert(views.take(i as int + 1).drop_last() =~= views.take(i as int));
                    assert(views.take(i as int + 1).last() == image_view(imgs@[i as int]));
                }
                let (k, v) = image_entry_value(as_url, imgs[i].result.as_str(), imgs[i].output_format.as_str());
                let mut data: Vec<(String, JsonValue)> = Vec::new();
                push_entry(&mut data, "type", JsonValue::String(copy_string(&ev)));
                push_entry(&mut data, k.as_str(), v);
                let ghost base = entries_view(data@);
                match usage {
                    Some(u) => push_entry(&mut data, "usage", clone_json(u)),
                    None => {},
                }
                proof {
                    assert(base =~= seq![
                        ("type"@, JsonView::Str(ev@)),
                        image_entry(as_url, imgs@[i as int].result@, imgs@[i as int].output_format@),
                    ]);
                }
                let piece = named_sse_text(ev.as_str(), &JsonValue::Object(data));
                out = concat_str(out.as_str(), piece.as_str());
                i = i + 1;
            }
            proof {
                assert(views.take(views.len() as int) =~= views);
            }
            return out;
        }
        String::new()
    }

    fn process_frame(&mut self, frame: &Vec<u8>) -> (r: String)
        ensures
            (final(self).capture(), r@) == image_frame(old(self).capture(), frame@, old(self).format(), old(self).prefix()),
            final(self).pending() == old(self).pending(),
            final(self).format() == old(self).format(),
            final(self).prefix() == old(self).prefix(),
    {
        let payload = match frame_payload_exec(frame) {
            Some(p) => p,
            None => return String::new(),
        };
        let event = match parse_json_text(payload.as_str()) {
            Some(v) => v,
            None => return String::new(),
        };
        let name = event_name_exec(frame);
        proof {
            assert(opt_string_text(name) == event_name(lines_of(utf8_lossy(frame@))));
        }
        self.process_event(&event, name)
    }

    fn drain(&mut self) -> (r: String)
        ensures
            (final(self).capture(), final(self).pending(), r@) == drain_images(
                old(self).capture(),
                old(self).pending(),
                old(self).format(),
                old(self).prefix(),
            ),
            final(self).format() == old(self).format(),
            final(self).prefix() == old(self).prefix(),
    {
        let ghost target = drain_images(old(self).capture(), old(self).pending(), old(self).format(), old(self).prefix());
        let mut out = String::new();
        loop
            invariant
                self.format() == old(self).format(),
                self.prefix() == old(self).prefix(),
                drain_images(self.capture(), self.pending(), self.format(), self.prefix()).0 == target.0,
                drain_images(self.capture(), self.pending(), self.format(), self.prefix()).1 == target.1,
                out@ + drain_images(self.capture(), self.pending(), self.format(), self.prefix()).2 == target.2,
                target == drain_images(old(self).capture(), old(self).pending(), old(self).format(), old(self).prefix()),
            decreases self.stream_buffer@.len(),
        {
            let ghost buf = self.stream_buffer@;
            match find_sse_frame_boundary(self.stream_buffer.as_slice()) {
                None => {
                    proof {
                        lemma_no_boundary(buf, 0);
                        assert(out@ + Seq::<char>::empty() =~= out@);
                    }
                    return out;
                },
                Some((i, n)) => {
                    proof {
                        lemma_first_boundary(buf, 0, i as int);
                    }
                    let len = self.stream_buffer.len();
                    assert(i + n <= len);
                    let frame = bytes_range(&self.stream_buffer, 0, i);
                    let rest = bytes_range(&self.stream_buffer, i + n, self.stream_buffer.len());
                    proof {
                        assert(frame@ =~= buf.take(i as int));
                        assert(rest@ =~= buf.skip(i + n));
                    }
                    self.stream_buffer = rest;
                    let ghost before = out@;
                    let piece = self.process_frame(&frame);
                    out = concat_str(out.as_str(), piece.as_str());
                    proof {
                        let d = drain_images(self.capture(), self.pending(), self.format(), self.prefix());
                        assert(out@ + d.2 =~= before + (piece@ + d.2));
                    }
                },
            }
        }
    }

    /// Takes the next chunk of the upstream stream; gives the Images API
    /// stream bytes that its complete events make.
    pub fn feed(&mut self, chunk: &[u8]) -> (r: Vec<u8>)
        ensures
            final(self).format() == old(self).format(),
            final(self).prefix() == old(self).prefix(),
            chunk@.len() == 0 ==> r@ == Seq::<u8>::empty() && final(self).capture() == old(self).capture()
                && final(self).pending() == old(self).pending(),
            chunk@.len() > 0 ==> {
                let d = drain_images(old(self).capture(), old(self).pending() + chunk@, old(self).format(), old(self).prefix());
                &&& final(self).capture() == d.0
                &&& final(self).pending() == d.1
                &&& r@ == encode_utf8(d.2)
            },
    {
        if chunk.len() == 0 {
            return Vec::new();
        }
        let mut i: usize = 0;
        let ghost start = self.stream_buffer@;
        while i < chunk.len()
            invariant
                i <= chunk@.len(),
                self.stream_buffer@ == start + chunk@.take(i as int),
                self.capture() == old(self).capture(),
                start == old(self).pending(),
                self.format() == old(self).format(),
                self.prefix() == old(self).prefix(),
            decreases chunk@.len() - i,
        {
            self.stream_buffer.push(chunk[i]);
            assert(chunk@.take(i as int + 1) =~= chunk@.take(i as int).push(chunk@[i as int]));
            i = i + 1;
        }
        assert(chunk@.take(chunk@.len() as int) =~= chunk@);
        let text = self.drain();
        bytes_of(text.as_str())
    }

    /// Closes the stream: the rest of the upstream stream counts as a last
    /// event; gives the bytes and what was captured.
    pub fn finish(self) -> (r: (Vec<u8>, ResponseCapture))
        ensures
            ({
                let (c1, rest, out1) = drain_images(self.capture(), self.pending(), self.format(), self.prefix());
                let (c2, out2) = if rest.len() > 0 {
                    image_frame(c1, rest, self.format(), self.prefix())
                } else {
                    (c1, Seq::empty())
                };
                &&& r.0@ == encode_utf8(out1 + out2)
                &&& (r.1.usage, opt_string_text(r.1.response_id)) == c2
            }),
    {
        let mut this = self;
        let first = this.drain();
        let second = if this.stream_buffer.len() > 0 {
            let tail = bytes_range(&this.stream_buffer, 0, this.stream_buffer.len());
            assert(tail@ =~= this.stream_buffer@);
            this.process_frame(&tail)
        } else {
            String::new()
        };
        let text = concat_str(first.as_str(), second.as_str());
        (bytes_of(text.as_str()), this.response_capture)
    }
}

} // verus!
