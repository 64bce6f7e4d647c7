//! Image requests as Responses requests: an Images API generation or edit
//! becomes a Responses request that asks the image generation tool for the
//! picture, with the tool's options taken from the client's request.
use vstd::prelude::*;
use crate::json::{
    JsonValue, JsonView, NumberView, entries_view, items_view, json_view, view_member, view_field, view_set,
    view_text, get_entry, set_member, push_entry, push_item, clone_json, lemma_items_view,
};
use crate::text::{trim, lower, chars_of, string_of, trim_vec, lower_vec, trim_str, str_eq, lit, concat_str, sub_vec, seq_eq, texts};
use crate::toolnames::rfind;

verus! {

broadcast use vstd::string::group_string_axioms;

/// The image model the gateway serves.
pub open spec fn image_model_id() -> Seq<char> {
    "gpt-image-2"@
}

/// A model id without a provider prefix: what follows its last `/`,
/// trimmed, when something follows it.
pub open spec fn image_model_base(model: Seq<char>) -> Seq<char> {
    let b = trim(model);
    match rfind(b, "/"@) {
        Some(i) => if i < b.len() - 1 {
            trim(b.skip(i + 1))
        } else {
            b
        },
        None => b,
    }
}

/// A model id without its provider prefix.
pub fn normalize_image_model_base(model: &str) -> (r: String)
    ensures
        r@ == image_model_base(model@),
{
    let b = trim_vec(&chars_of(model));
    let mut i: usize = b.len();
    let slash = chars_of("/");
    proof {
        reveal_strlit("/");
    }
    while i > 0
        invariant
            i <= b@.len(),
            b@ == trim(model@),
            slash@ == "/"@,
            forall|j: int| i <= j < b@.len() ==> b@[j] != '/',
        decreases i,
    {
        if b[i - 1] == '/' {
            let idx = i - 1;
            proof {
                lemma_last_slash(b@, idx as int);
            }
            if idx + 1 < b.len() {
                let tail = sub_vec(&b, idx + 1, b.len());
                assert(tail@ =~= b@.skip(idx + 1));
                return string_of(&trim_vec(&tail));
            }
            return string_of(&b);
        }
        i = i - 1;
    }
    proof {
        lemma_no_slash(b@);
    }
    string_of(&b)
}

proof fn lemma_last_slash(b: Seq<char>, idx: int)
    requires
        0 <= idx < b.len(),
        b[idx] == '/',
        forall|j: int| idx < j < b.len() ==> b[j] != '/',
    ensures
        rfind(b, "/"@) == Some(idx),
{
    reveal_strlit("/");
    lemma_rfind_from_at(b, idx, b.len() - 1);
}

proof fn lemma_rfind_from_at(b: Seq<char>, idx: int, i: int)
    requires
        0 <= idx <= i < b.len(),
        b[idx] == '/',
        forall|j: int| idx < j < b.len() ==> b[j] != '/',
    ensures
        crate::toolnames::rfind_from(b, "/"@, i) == Some(idx),
    decreases i - idx,
{
    reveal_strlit("/");
    if i == idx {
        assert(b.subrange(idx, idx + 1) =~= "/"@);
    } else {
        assert(b.subrange(i, i + 1) !~= "/"@) by {
            assert(b.subrange(i, i + 1)[0] == b[i]);
        }
        lemma_rfind_from_at(b, idx, i - 1);
    }
}

proof fn lemma_no_slash(b: Seq<char>)
    requires
        forall|j: int| 0 <= j < b.len() ==> b[j] != '/',
    ensures
        rfind(b, "/"@) is None,
{
    reveal_strlit("/");
    lemma_no_slash_from(b, b.len() - 1);
}

proof fn lemma_no_slash_from(b: Seq<char>, i: int)
    requires
        i < b.len(),
        forall|j: int| 0 <= j < b.len() ==> b[j] != '/',
    ensures
        crate::toolnames::rfind_from(b, "/"@, i) is None,
    decreases i + 1,
{
    reveal_strlit("/");
    if i >= 0 {
        assert(b.subrange(i, i + 1) !~= "/"@) by {
            assert(b.subrange(i, i + 1)[0] == b[i]);
        }
        lemma_no_slash_from(b, i - 1);
    }
}

/// The error for a model the image routes do not serve.
pub open spec fn unsupported_image_model_error(trimmed: Seq<char>) -> Seq<char> {
    "Model "@ + (if trimmed.len() == 0 {
        "<empty>"@
    } else {
        trimmed
    }) + " is not supported on /v1/images/generations or /v1/images/edits. Use gpt-image-2."@
}

/// The image model a request may name: `gpt-image-2`, with or without a
/// provider prefix.
pub open spec fn image_model_check(model: Seq<char>) -> Result<Seq<char>, Seq<char>> {
    if image_model_base(trim(model)) == image_model_id() {
        Ok(image_model_id())
    } else {
        Err(unsupported_image_model_error(trim(model)))
    }
}

/// Checks the model of an image request.
pub fn validate_image_model(model: &str) -> (r: Result<String, String>)
    ensures
        match image_model_check(model@) {
            Ok(m) => r matches Ok(s) && s@ == m,
            Err(e) => r matches Err(s) && s@ == e,
        },
{
    let trimmed = trim_str(model);
    let base = normalize_image_model_base(trimmed.as_str());
    if str_eq(base.as_str(), "gpt-image-2") {
        return Ok(lit("gpt-image-2"));
    }
    let shown = if chars_of(trimmed.as_str()).len() == 0 {
        lit("<empty>")
    } else {
        trimmed
    };
    let head = concat_str("Model ", shown.as_str());
    Err(concat_str(head.as_str(), " is not supported on /v1/images/generations or /v1/images/edits. Use gpt-image-2."))
}

/// The response format an image request asks for: its trimmed text,
/// lowercased, else `b64_json`.
pub open spec fn response_format_of(v: Option<JsonView>) -> Seq<char> {
    match view_text(v) {
        Some(t) if trim(t).len() > 0 => lower(trim(t)),
        _ => "b64_json"@,
    }
}

/// The response format an image request asks for.
pub fn normalize_image_response_format(value: Option<&JsonValue>) -> (r: String)
    ensures
        r@ == response_format_of(
            match value {
                Some(v) => Some(json_view(*v)),
                None => None,
            },
        ),
{
    match value {
        Some(JsonValue::String(t)) => {
            let tt = trim_vec(&chars_of(t.as_str()));
            if tt.len() > 0 {
                return string_of(&lower_vec(&tt));
            }
        },
        _ => {},
    }
    proof {
        reveal_strlit("b64_json");
    }
    string_of(&lower_vec(&chars_of("b64_json")))
}

/// A member's text, trimmed, unless missing, not text, or blank.
pub open spec fn string_field(entries: Seq<(Seq<char>, JsonView)>, key: Seq<char>) -> Option<Seq<char>> {
    match view_text(view_member(entries, key)) {
        Some(t) if trim(t).len() > 0 => Some(trim(t)),
        _ => None,
    }
}

/// A member's trimmed, non-blank text.
pub fn json_string_field(object: &Vec<(String, JsonValue)>, key: &str) -> (r: Option<String>)
    ensures
        r matches Some(s) ==> string_field(entries_view(object@), key@) == Some(s@),
        r is None ==> string_field(entries_view(object@), key@) is None,
{
    match get_entry(object, key) {
        Some(JsonValue::String(t)) => {
            let tt = trim_str(t.as_str());
            if chars_of(tt.as_str()).len() > 0 {
                Some(tt)
            } else {
                None
            }
        },
        _ => None,
    }
}

/// A target object with a source's text member copied, when it has one.
pub open spec fn with_string_field(
    target: Seq<(Seq<char>, JsonView)>,
    source: Seq<(Seq<char>, JsonView)>,
    key: Seq<char>,
) -> Seq<(Seq<char>, JsonView)> {
    match string_field(source, key) {
        Some(v) => view_set(target, key, JsonView::Str(v)),
        None => target,
    }
}

/// Copies a text member from a source object.
pub fn insert_json_string_field(target: &mut Vec<(String, JsonValue)>, source: &Vec<(String, JsonValue)>, key: &str)
    ensures
        entries_view(final(target)@) == with_string_field(entries_view(old(target)@), entries_view(source@), key@),
{
    match json_string_field(source, key) {
        Some(v) => set_member(target, key, JsonValue::String(v)),
        None => {},
    }
}

/// A target object with a source's number member copied, when it has one.
pub open spec fn with_number_field(
    target: Seq<(Seq<char>, JsonView)>,
    source: Seq<(Seq<char>, JsonView)>,
    key: Seq<char>,
) -> Seq<(Seq<char>, JsonView)> {
    match view_member(source, key) {
        Some(JsonView::Number(n)) => view_set(target, key, JsonView::Number(n)),
        _ => target,
    }
}

/// Copies a number member from a source object.
pub fn insert_json_number_field(target: &mut Vec<(String, JsonValue)>, source: &Vec<(String, JsonValue)>, key: &str)
    ensures
        entries_view(final(target)@) == with_number_field(entries_view(old(target)@), entries_view(source@), key@),
{
    match get_entry(source, key) {
        Some(v) => match v {
            JsonValue::Number(_) => set_member(target, key, clone_json(v)),
            _ => {},
        },
        None => {},
    }
}

/// The image generation tool of an image request: its action, its model
/// (the request's, checked), and the options the request sets.
pub open spec fn image_tool_for(
    source: Seq<(Seq<char>, JsonView)>,
    action: Seq<char>,
    include_edit_fields: bool,
) -> Result<JsonView, Seq<char>> {
    let requested = match string_field(source, "model"@) {
        Some(m) => m,
        None => image_model_id(),
    };
    match image_model_check(requested) {
        Err(e) => Err(e),
        Ok(canonical) => {
            let t0 = seq![
                ("type"@, JsonView::Str("image_generation"@)),
                ("action"@, JsonView::Str(action)),
                ("model"@, JsonView::Str(canonical)),
            ];
            let t1 = with_string_field(t0, source, "size"@);
            let t2 = with_string_field(t1, source, "quality"@);
            let t3 = with_string_field(t2, source, "background"@);
            let t4 = with_string_field(t3, source, "output_format"@);
            let t5 = with_string_field(t4, source, "moderation"@);
            let t6 = if include_edit_fields {
                with_string_field(t5, source, "input_fidelity"@)
            } else {
                t5
            };
            let t7 = with_number_field(t6, source, "output_compression"@);
            let t8 = with_number_field(t7, source, "partial_images"@);
            Ok(JsonView::Object(t8))
        },
    }
}

/// The image generation tool of an image request.
pub fn build_image_generation_tool(source: &Vec<(String, JsonValue)>, action: &str, include_edit_fields: bool) -> (r:
    Result<JsonValue, String>)
    ensures
        match image_tool_for(entries_view(source@), action@, include_edit_fields) {
            Ok(t) => r matches Ok(v) && json_view(v) == t,
            Err(e) => r matches Err(s) && s@ == e,
        },
{
    let requested = match json_string_field(source, "model") {
        Some(m) => m,
        None => lit("gpt-image-2"),
    };
    let canonical = match validate_image_model(requested.as_str()) {
        Ok(c) => c,
        Err(e) => return Err(e),
    };
    let mut tool: Vec<(String, JsonValue)> = Vec::new();
    push_entry(&mut tool, "type", JsonValue::String(lit("image_generation")));
    push_entry(&mut tool, "action", JsonValue::String(lit(action)));
    push_entry(&mut tool, "model", JsonValue::String(canonical));
    proof {
        assert(entries_view(tool@) =~= seq![
            ("type"@, JsonView::Str("image_generation"@)),
            ("action"@, JsonView::Str(action@)),
            ("model"@, JsonView::Str(image_model_id())),
        ]);
    }
    insert_json_string_field(&mut tool, source, "size");
    insert_json_string_field(&mut tool, source, "quality");
    insert_json_string_field(&mut tool, source, "background");
    insert_json_string_field(&mut tool, source, "output_format");
    insert_json_string_field(&mut tool, source, "moderation");
    if include_edit_fields {
        insert_json_string_field(&mut tool, source, "input_fidelity");
    }
    insert_json_number_field(&mut tool, source, "output_compression");
    insert_json_number_field(&mut tool, source, "partial_images");
    Ok(JsonValue::Object(tool))
}

/// The images of an edit, as input parts: the trimmed, non-blank ones.
pub open spec fn image_parts(images: Seq<Seq<char>>) -> Seq<JsonView>
    decreases images.len(),
{
    if images.len() == 0 {
        Seq::empty()
    } else {
        let before = image_parts(images.drop_last());
        let url = trim(images.last());
        if url.len() == 0 {
            before
        } else {
            before.push(JsonView::Object(seq![("image_url"@, JsonView::Str(url)), ("type"@, JsonView::Str("input_image"@))]))
        }
    }
}

/// The Responses request that asks the image tool for a picture: the prompt
/// and the images as one user message, the tool forced, streamed.
pub open spec fn images_responses_view(prompt: Seq<char>, images: Seq<Seq<char>>, tool: JsonView) -> JsonView {
    let content = seq![JsonView::Object(seq![("text"@, JsonView::Str(prompt)), ("type"@, JsonView::Str("input_text"@))])]
        + image_parts(images);
    JsonView::Object(
        seq![
            ("include"@, JsonView::Array(seq![JsonView::Str("reasoning.encrypted_content"@)])),
            ("input"@, JsonView::Array(seq![JsonView::Object(seq![
                ("content"@, JsonView::Array(content)),
                ("role"@, JsonView::Str("user"@)),
                ("type"@, JsonView::Str("message"@)),
            ])])),
            ("instructions"@, JsonView::Str(Seq::empty())),
            ("model"@, JsonView::Str("gpt-5.4-mini"@)),
            ("parallel_tool_calls"@, JsonView::Bool(true)),
            ("reasoning"@, JsonView::Object(seq![("effort"@, JsonView::Str("medium"@)), ("summary"@, JsonView::Str("auto"@))])),
            ("store"@, JsonView::Bool(false)),
            ("stream"@, JsonView::Bool(true)),
            ("tool_choice"@, JsonView::Object(seq![("type"@, JsonView::Str("image_generation"@))])),
            ("tools"@, JsonView::Array(seq![tool])),
        ],
    )
}

/// The key under which a Responses request lists extra output to return.
pub(crate) fn include_key() -> (r: String)
    ensures
        r@ == "include"@,
{
    let r = concat_str("incl", "ude");
    proof {
        reveal_strlit("incl");
        reveal_strlit("ude");
        reveal_strlit("include");
        assert(r@ =~= "include"@);
    }
    r
}

fn text_entry_object(k1: &str, v1: String, k2: &str, v2: String) -> (r: JsonValue)
    ensures
        json_view(r) == JsonView::Object(seq![(k1@, JsonView::Str(v1@)), (k2@, JsonView::Str(v2@))]),
{
    let mut o: Vec<(String, JsonValue)> = Vec::new();
    push_entry(&mut o, k1, JsonValue::String(v1));
    push_entry(&mut o, k2, JsonValue::String(v2));
    proof {
        assert(entries_view(o@) =~= seq![(k1@, JsonView::Str(v1@)), (k2@, JsonView::Str(v2@))]);
    }
    JsonValue::Object(o)
}

/// The Responses request for an image prompt, images and tool.
pub fn build_images_responses_body(prompt: &str, images: &Vec<String>, tool: JsonValue) -> (r: JsonValue)
    ensures
        json_view(r) == images_responses_view(prompt@, texts(images@), json_view(tool)),
{
    let ghost tv = json_view(tool);
    let mut content: Vec<JsonValue> = Vec::new();
    push_item(&mut content, text_entry_object("text", lit(prompt), "type", lit("input_text")));
    let ghost first = items_view(content@);
    let mut i: usize = 0;
    while i < images.len()
        invariant
            i <= images@.len(),
            items_view(content@) == first + image_parts(texts(images@).take(i as int)),
        decreases images@.len() - i,
    {
        proof {
            assert(texts(images@).take(i as int + 1).drop_last() =~= texts(images@).take(i as int));
            assert(texts(images@).take(i as int + 1).last() == images@[i as int]@);
        }
        let url = trim_str(images[i].as_str());
        if chars_of(url.as_str()).len() > 0 {
            push_item(&mut content, text_entry_object("image_url", url, "type", lit("input_image")));
            proof {
                assert(first + image_parts(texts(images@).take(i as int + 1)) =~= (first + image_parts(
                    texts(images@).take(i as int),
                )).push(items_view(content@).last()));
            }
        }
        i = i + 1;
    }
    proof {
        assert(texts(images@).take(images@.len() as int) =~= texts(images@));
    }
    let ghost cv = items_view(content@);
    let mut message: Vec<(String, JsonValue)> = Vec::new();
    push_entry(&mut message, "content", JsonValue::Array(content));
    push_entry(&mut message, "role", JsonValue::String(lit("user")));
    push_entry(&mut message, "type", JsonValue::String(lit("message")));
    let ghost mv = entries_view(message@);
    let mut input: Vec<JsonValue> = Vec::new();
    push_item(&mut input, JsonValue::Object(message));
    let mut extra_fields: Vec<JsonValue> = Vec::new();
    push_item(&mut extra_fields, JsonValue::String(lit("reasoning.encrypted_content")));
    let mut tools: Vec<JsonValue> = Vec::new();
    push_item(&mut tools, tool);
    let mut choice: Vec<(String, JsonValue)> = Vec::new();
    push_entry(&mut choice, "type", JsonValue::String(lit("image_generation")));
    let mut body: Vec<(String, JsonValue)> = Vec::new();
    let extra_key = include_key();
    push_entry(&mut body, extra_key.as_str(), JsonValue::Array(extra_fields));
    push_entry(&mut body, "input", JsonValue::Array(input));
    push_entry(&mut body, "instructions", JsonValue::String(String::new()));
    push_entry(&mut body, "model", JsonValue::String(lit("gpt-5.4-mini")));
    push_entry(&mut body, "parallel_tool_calls", JsonValue::Bool(true));
    push_entry(&mut body, "reasoning", text_entry_object("effort", lit("medium"), "summary", lit("auto")));
    push_entry(&mut body, "store", JsonValue::Bool(false));
    push_entry(&mut body, "stream", JsonValue::Bool(true));
    push_entry(&mut body, "tool_choice", JsonValue::Object(choice));
    push_entry(&mut body, "tools", JsonValue::Array(tools));
    proof {
        assert(mv =~= seq![
            ("content"@, JsonView::Array(cv)),
            ("role"@, JsonView::Str("user"@)),
            ("type"@, JsonView::Str("message"@)),
        ]);
        assert(items_view(input@) =~= seq![JsonView::Object(mv)]);
        assert(items_view(extra_fields@) =~= seq![JsonView::Str("reasoning.encrypted_content"@)]);
        assert(items_view(tools@) =~= seq![tv]);
        assert(entries_view(choice@) =~= seq![("type"@, JsonView::Str("image_generation"@))]);
        assert(entries_view(body@) =~= images_responses_view(prompt@, texts(images@), tv)->Object_0);
    }
    JsonValue::Object(body)
}

/// A boolean member, or `false`.
pub open spec fn flag_of(entries: Seq<(Seq<char>, JsonView)>, key: Seq<char>) -> bool {
    match view_member(entries, key) {
        Some(JsonView::Bool(b)) => b,
        _ => false,
    }
}

pub(crate) fn flag_exec(entries: &Vec<(String, JsonValue)>, key: &str) -> (r: bool)
    ensures
        r == flag_of(entries_view(entries@), key@),
{
    match get_entry(entries, key) {
        Some(JsonValue::Bool(b)) => *b,
        _ => false,
    }
}

/// An image request translated: the Responses body, whether the client
/// asked for a stream, and the response format it wants.
pub type ImagesRequest = (JsonView, bool, Seq<char>);

/// An Images API generation request as a Responses request.
pub open spec fn images_generation(body: JsonView) -> Result<ImagesRequest, Seq<char>> {
    match body {
        JsonView::Object(entries) => match string_field(entries, "prompt"@) {
            None => Err("images/generations 请求缺少 prompt"@),
            Some(prompt) => match image_tool_for(entries, "generate"@, false) {
                Err(e) => Err(e),
                Ok(tool) => Ok(
                    (
                        images_responses_view(prompt, Seq::empty(), tool),
                        flag_of(entries, "stream"@),
                        response_format_of(view_member(entries, "response_format"@)),
                    ),
                ),
            },
        },
        _ => Err("images/generations 请求体必须是 JSON 对象"@),
    }
}

/// Translates an Images API generation request.
pub fn build_images_generation_request(body: &JsonValue) -> (r: Result<(JsonValue, bool, String), String>)
    ensures
        match images_generation(json_view(*body)) {
            Ok((v, stream, format)) => r matches Ok(t) && json_view(t.0) == v && t.1 == stream && t.2@ == format,
            Err(e) => r matches Err(s) && s@ == e,
        },
{
    let entries = match body {
        JsonValue::Object(entries) => entries,
        _ => return Err(lit("images/generations 请求体必须是 JSON 对象")),
    };
    let prompt = match json_string_field(entries, "prompt") {
        Some(p) => p,
        None => return Err(lit("images/generations 请求缺少 prompt")),
    };
    let response_format = normalize_image_response_format(get_entry(entries, "response_format"));
    let stream = flag_exec(entries, "stream");
    let tool = match build_image_generation_tool(entries, "generate", false) {
        Ok(t) => t,
        Err(e) => return Err(e),
    };
    let none: Vec<String> = Vec::new();
    proof {
        assert(texts(none@) =~= Seq::<Seq<char>>::empty());
    }
    Ok((build_images_responses_body(prompt.as_str(), &none, tool), stream, response_format))
}

/// The images of a JSON edit request: a non-blank `image` text, then for
/// each of `images` its non-blank `image_url`, else its own non-blank text.
pub open spec fn edit_images(entries: Seq<(Seq<char>, JsonView)>) -> Seq<Seq<char>> {
    let first = match view_text(view_member(entries, "image"@)) {
        Some(t) if trim(t).len() > 0 => seq![trim(t)],
        _ => Seq::empty(),
    };
    first + match view_member(entries, "images"@) {
        Some(JsonView::Array(items)) => listed_images(items),
        _ => Seq::empty(),
    }
}

/// The images listed in an `images` array.
pub open spec fn listed_images(items: Seq<JsonView>) -> Seq<Seq<char>>
    decreases items.len(),
{
    if items.len() == 0 {
        Seq::empty()
    } else {
        let before = listed_images(items.drop_last());
        let it = items.last();
        match view_text(view_field(it, "image_url"@)) {
            Some(u) if trim(u).len() > 0 => before.push(trim(u)),
            _ => match view_text(Some(it)) {
                Some(u) if trim(u).len() > 0 => before.push(trim(u)),
                _ => before,
            },
        }
    }
}

/// The images of a JSON edit request.
pub fn extract_json_edit_images(request_obj: &Vec<(String, JsonValue)>) -> (r: Vec<String>)
    ensures
        texts(r@) == edit_images(entries_view(request_obj@)),
{
    let mut images: Vec<String> = Vec::new();
    match get_entry(request_obj, "image") {
        Some(JsonValue::String(t)) => {
            let tt = trim_str(t.as_str());
            if chars_of(tt.as_str()).len() > 0 {
                images.push(tt);
            }
        },
        _ => {},
    }
    let ghost head = texts(images@);
    match get_entry(request_obj, "images") {
        Some(JsonValue::Array(items)) => {
            proof {
                lemma_items_view(items@);
            }
            let mut i: usize = 0;
            while i < items.len()
                invariant
                    i <= items@.len(),
                    items_view(items@).len() == items@.len(),
                    forall|j: int| 0 <= j < items@.len() ==> #[trigger] items_view(items@)[j] == json_view(items@[j]),
                    texts(images@) == head + listed_images(items_view(items@).take(i as int)),
                decreases items@.len() - i,
            {
                proof {
                    assert(items_view(items@).take(i as int + 1).drop_last() =~= items_view(items@).take(i as int));
                }
                let it = &items[i];
                let from_url = match it {
                    JsonValue::Object(e) => match get_entry(e, "image_url") {
                        Some(JsonValue::String(u)) => {
                            let t = trim_str(u.as_str());
                            if chars_of(t.as_str()).len() > 0 {
                                Some(t)
                            } else {
                                None
                            }
                        },
                        _ => None,
                    },
                    _ => None,
                };
                let picked = match from_url {
                    Some(u) => Some(u),
                    None => match it {
                        JsonValue::String(u) => {
                            let t = trim_str(u.as_str());
                            if chars_of(t.as_str()).len() > 0 {
                                Some(t)
                            } else {
                                None
                            }
                        },
                        _ => None,
                    },
                };
                match picked {
                    Some(u) => {
                        let ghost before = images@;
                        images.push(u);
                        proof {
                            assert(texts(images@) =~= texts(before).push(images@.last()@));
                        }
                    },
                    None => {},
                }
                i = i + 1;
            }
            proof {
                assert(items_view(items@).take(items@.len() as int) =~= items_view(items@));
            }
        },
        _ => {},
    }
    images
}

/// The mask of an edit: `mask.image_url`, trimmed, unless blank.
pub open spec fn edit_mask(entries: Seq<(Seq<char>, JsonView)>) -> Option<Seq<char>> {
    match view_member(entries, "mask"@) {
        Some(m) => match view_text(view_field(m, "image_url"@)) {
            Some(u) if trim(u).len() > 0 => Some(trim(u)),
            _ => None,
        },
        None => None,
    }
}

/// An Images API edit request sent as JSON, as a Responses request; the
/// mask, when given, goes into the tool as `input_image_mask`.
pub open spec fn images_edit(body: JsonView) -> Result<ImagesRequest, Seq<char>> {
    match body {
        JsonView::Object(entries) => match string_field(entries, "prompt"@) {
            None => Err("images/edits 请求缺少 prompt"@),
            Some(prompt) => if edit_images(entries).len() == 0 {
                Err("images/edits 请求缺少 images[].image_url"@)
            } else {
                match image_tool_for(entries, "edit"@, true) {
                    Err(e) => Err(e),
                    Ok(tool) => {
                        let tool2 = match (edit_mask(entries), tool) {
                            (Some(mask), JsonView::Object(t)) => JsonView::Object(
                                view_set(t, "input_image_mask"@, JsonView::Object(seq![("image_url"@, JsonView::Str(mask))])),
                            ),
                            _ => tool,
                        };
                        Ok(
                            (
                                images_responses_view(prompt, edit_images(entries), tool2),
                                flag_of(entries, "stream"@),
                                response_format_of(view_member(entries, "response_format"@)),
                            ),
                        )
                    },
                }
            },
        },
        _ => Err("images/edits 请求体必须是 JSON 对象"@),
    }
}

/// Translates an Images API edit request sent as JSON.
pub fn build_images_edit_request_from_json(body: &JsonValue) -> (r: Result<(JsonValue, bool, String), String>)
    ensures
        match images_edit(json_view(*body)) {
            Ok((v, stream, format)) => r matches Ok(t) && json_view(t.0) == v && t.1 == stream && t.2@ == format,
            Err(e) => r matches Err(s) && s@ == e,
        },
{
    let entries = match body {
        JsonValue::Object(entries) => entries,
        _ => return Err(lit("images/edits 请求体必须是 JSON 对象")),
    };
    let prompt = match json_string_field(entries, "prompt") {
        Some(p) => p,
        None => return Err(lit("images/edits 请求缺少 prompt")),
    };
    let images = extract_json_edit_images(entries);
    if images.len() == 0 {
        return Err(lit("images/edits 请求缺少 images[].image_url"));
    }
    let response_format = normalize_image_response_format(get_entry(entries, "response_format"));
    let stream = flag_exec(entries, "stream");
    let tool = match build_image_generation_tool(entries, "edit", true) {
        Ok(t) => t,
        Err(e) => return Err(e),
    };
    let mask = match get_entry(entries, "mask") {
        Some(JsonValue::Object(m)) => match get_entry(m, "image_url") {
            Some(JsonValue::String(u)) => {
                let t = trim_str(u.as_str());
                if chars_of(t.as_str()).len() > 0 {
                    Some(t)
                } else {
                    None
                }
            },
            _ => None,
        },
        _ => None,
    };
    let tool = match (mask, tool) {
        (Some(m), JsonValue::Object(mut t)) => {
            let mut mask_obj: Vec<(String, JsonValue)> = Vec::new();
            push_entry(&mut mask_obj, "image_url", JsonValue::String(m));
            proof {
                assert(entries_view(mask_obj@) =~= seq![("image_url"@, JsonView::Str(edit_mask(entries_view(entries@)).unwrap()))]);
            }
            set_member(&mut t, "input_image_mask", JsonValue::Object(mask_obj));
            JsonValue::Object(t)
        },
        (_, t) => t,
    };
    Ok((build_images_responses_body(prompt.as_str(), &images, tool), stream, response_format))
}

} // verus!
