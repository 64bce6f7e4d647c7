//! The body a request carries upstream, as each account and policy sees
//! it: the image generation tool added for paying accounts or taken away
//! where image tools are not allowed, and the model id rewritten to the
//! catalog model it stands for.
use vstd::prelude::*;
use crate::account::CodexAccount;
use crate::collection::{
    CodexLocalAccessCollection, CodexLocalAccessImageGenerationMode, ResolvedLocalApiKey,
    image_generation_tools_allowed, canonical_model, canonical_model_for_client_model, model_visible,
    validate_client_model_visible,
};
use crate::http::{CodexLocalAccessRequestKind, ParsedRequest, is_responses_target, is_responses_request};
use crate::json::{
    JsonValue, JsonView, field, as_text, request_body_json, parse_request_body_json, get_member, text_of,
    json_view, items_view, entries_view, view_member, view_field, view_set, view_remove, view_text,
    set_member, remove_member, clone_json, push_item, push_entry, get_entry, json_to_vec, json_bytes,
    lemma_items_view,
};
use crate::models::{resolve_alias, supported_catalog, resolve_supported_model_alias};
use crate::text::{trim, lower, ends_with, chars_of, trim_lower_str, ends_with_exec, str_eq, lit, concat_str, trim_str, texts};
use crate::upstream::{free_plan, is_free_plan_type};

verus! {

broadcast use vstd::string::group_string_axioms;

/// Models that get the image tool: any named model but the `spark` ones.
pub open spec fn inject_tool_for(model: Seq<char>) -> bool {
    let n = lower(trim(model));
    n.len() > 0 && !ends_with(n, "spark"@)
}

/// Whether a model gets the image tool.
pub fn should_inject_image_generation_tool(model: &str) -> (r: bool)
    ensures
        r == inject_tool_for(model@),
{
    let n = chars_of(trim_lower_str(model).as_str());
    n.len() > 0 && !ends_with_exec(&n, &chars_of("spark"))
}

/// The image tool the gateway adds.
pub open spec fn image_tool() -> JsonView {
    JsonView::Object(seq![("output_format"@, JsonView::Str("png"@)), ("type"@, JsonView::Str("image_generation"@))])
}

/// A tool whose `type` is `image_generation`.
pub open spec fn is_image_tool(v: JsonView) -> bool {
    view_text(view_field(v, "type"@)) == Some("image_generation"@)
}

/// Some tool of a list is the image tool.
pub open spec fn has_image_tool(tools: Seq<JsonView>) -> bool {
    exists|i: int| 0 <= i < tools.len() && #[trigger] is_image_tool(tools[i])
}

/// An object with the image tool added, or none where nothing changes: the
/// body's model must get it, and its `tools` must not have it already; a
/// `tools` that is not an array is replaced.
pub open spec fn ensured_tools(entries: Seq<(Seq<char>, JsonView)>) -> Option<Seq<(Seq<char>, JsonView)>> {
    let model = match view_text(view_member(entries, "model"@)) {
        Some(m) => m,
        None => Seq::empty(),
    };
    if !inject_tool_for(model) {
        None
    } else {
        match view_member(entries, "tools"@) {
            Some(JsonView::Array(tools)) => if has_image_tool(tools) {
                None
            } else {
                Some(view_set(entries, "tools"@, JsonView::Array(tools.push(image_tool()))))
            },
            _ => Some(view_set(entries, "tools"@, JsonView::Array(seq![image_tool()]))),
        }
    }
}

fn image_tool_value() -> (r: JsonValue)
    ensures
        json_view(r) == image_tool(),
{
    let mut tool: Vec<(String, JsonValue)> = Vec::new();
    push_entry(&mut tool, "output_format", JsonValue::String(lit("png")));
    push_entry(&mut tool, "type", JsonValue::String(lit("image_generation")));
    proof {
        assert(entries_view(tool@) =~= seq![
            ("output_format"@, JsonView::Str("png"@)),
            ("type"@, JsonView::Str("image_generation"@)),
        ]);
    }
    JsonValue::Object(tool)
}

/// Whether a tool is the image tool.
fn is_image_tool_exec(v: &JsonValue) -> (r: bool)
    ensures
        r == is_image_tool(json_view(*v)),
{
    match v {
        JsonValue::Object(entries) => match get_entry(entries, "type") {
            Some(JsonValue::String(t)) => str_eq(t.as_str(), "image_generation"),
            _ => false,
        },
        _ => false,
    }
}

/// Adds the image tool to a body object where its model gets it and it is
/// not there yet; says whether the object changed.
pub fn ensure_image_generation_tool_in_object(object: &mut Vec<(String, JsonValue)>) -> (changed: bool)
    ensures
        match ensured_tools(entries_view(old(object)@)) {
            Some(e) => changed && entries_view(final(object)@) == e,
            None => !changed && final(object)@ == old(object)@,
        },
{
    let model = match get_entry(object, "model") {
        Some(JsonValue::String(m)) => copy(m),
        _ => String::new(),
    };
    if !should_inject_image_generation_tool(model.as_str()) {
        return false;
    }
    let new_tools = match get_entry(object, "tools") {
        Some(JsonValue::Array(tools)) => {
            proof {
                lemma_items_view(tools@);
            }
            let mut out: Vec<JsonValue> = Vec::new();
            let mut i: usize = 0;
            while i < tools.len()
                invariant
                    i <= tools@.len(),
                    items_view(tools@).len() == tools@.len(),
                    forall|j: int| 0 <= j < tools@.len() ==> #[trigger] items_view(tools@)[j] == json_view(tools@[j]),
                    items_view(out@) =~= items_view(tools@).take(i as int),
                    forall|j: int| 0 <= j < i ==> !#[trigger] is_image_tool(items_view(tools@)[j]),
                    object@ == old(object)@,
                    view_member(entries_view(old(object)@), "tools"@) == Some(JsonView::Array(items_view(tools@))),
                    inject_tool_for(
                        match view_text(view_member(entries_view(old(object)@), "model"@)) {
                            Some(m) => m,
                            None => Seq::empty(),
                        },
                    ),
                decreases tools@.len() - i,
            {
                if is_image_tool_exec(&tools[i]) {
                    proof {
                        assert(is_image_tool(items_view(tools@)[i as int]));
                        assert(has_image_tool(items_view(tools@)));
                    }
                    return false;
                }
                push_item(&mut out, clone_json(&tools[i]));
                i = i + 1;
            }
            proof {
                assert(items_view(tools@).take(tools@.len() as int) =~= items_view(tools@));
            }
            push_item(&mut out, image_tool_value());
            out
        },
        _ => {
            let mut out: Vec<JsonValue> = Vec::new();
            push_item(&mut out, image_tool_value());
            proof {
                assert(items_view(out@) =~= seq![image_tool()]);
            }
            out
        },
    };
    set_member(object, "tools", JsonValue::Array(new_tools));
    true
}

fn copy(s: &String) -> (r: String)
    ensures
        r@ == s@,
{
    crate::text::copy_string(s)
}

/// The tools of a list that are not the image tool.
pub open spec fn without_image_tools(tools: Seq<JsonView>) -> Seq<JsonView>
    decreases tools.len(),
{
    if tools.len() == 0 {
        Seq::empty()
    } else {
        let before = without_image_tools(tools.drop_last());
        if is_image_tool(tools.last()) {
            before
        } else {
            before.push(tools.last())
        }
    }
}

/// A tool choice that picks the image tool: the text `image_generation`,
/// or an object of that type, or one of type `tool` named so.
pub open spec fn picks_image_tool(choice: JsonView) -> bool {
    view_text(Some(choice)) == Some("image_generation"@) || view_text(view_field(choice, "type"@)) == Some(
        "image_generation"@,
    ) || (view_text(view_field(choice, "type"@)) == Some("tool"@) && view_text(view_field(choice, "name"@))
        == Some("image_generation"@))
}

/// An object with the image tool taken out of `tools` and an image tool
/// choice removed, and whether either changed anything.
pub open spec fn removed_tools(entries: Seq<(Seq<char>, JsonView)>) -> (Seq<(Seq<char>, JsonView)>, bool) {
    let (e1, c1) = match view_member(entries, "tools"@) {
        Some(JsonView::Array(tools)) => (
            view_set(entries, "tools"@, JsonView::Array(without_image_tools(tools))),
            without_image_tools(tools).len() != tools.len(),
        ),
        _ => (entries, false),
    };
    match view_member(e1, "tool_choice"@) {
        Some(choice) => if picks_image_tool(choice) {
            (view_remove(e1, "tool_choice"@), true)
        } else {
            (e1, c1)
        },
        None => (e1, c1),
    }
}

fn picks_image_tool_exec(choice: &JsonValue) -> (r: bool)
    ensures
        r == picks_image_tool(json_view(*choice)),
{
    match choice {
        JsonValue::String(s) => str_eq(s.as_str(), "image_generation"),
        JsonValue::Object(entries) => {
            let ty = match get_entry(entries, "type") {
                Some(JsonValue::String(t)) => Some(copy(t)),
                _ => None,
            };
            match ty {
                Some(t) => {
                    if str_eq(t.as_str(), "image_generation") {
                        true
                    } else if str_eq(t.as_str(), "tool") {
                        match get_entry(entries, "name") {
                            Some(JsonValue::String(n)) => str_eq(n.as_str(), "image_generation"),
                            _ => false,
                        }
                    } else {
                        false
                    }
                },
                None => false,
            }
        },
        _ => false,
    }
}

/// Takes the image tool and an image tool choice out of a body object; says
/// whether anything changed.
pub fn remove_image_generation_tool_from_object(object: &mut Vec<(String, JsonValue)>) -> (changed: bool)
    ensures
        entries_view(final(object)@) == removed_tools(entries_view(old(object)@)).0,
        changed == removed_tools(entries_view(old(object)@)).1,
{
    let mut changed = false;
    let kept = match get_entry(object, "tools") {
        Some(JsonValue::Array(tools)) => {
            proof {
                lemma_items_view(tools@);
            }
            let mut out: Vec<JsonValue> = Vec::new();
            let mut i: usize = 0;
            while i < tools.len()
                invariant
                    i <= tools@.len(),
                    items_view(tools@).len() == tools@.len(),
                    forall|j: int| 0 <= j < tools@.len() ==> #[trigger] items_view(tools@)[j] == json_view(tools@[j]),
                    items_view(out@) == without_image_tools(items_view(tools@).take(i as int)),
                decreases tools@.len() - i,
            {
                proof {
                    assert(items_view(tools@).take(i as int + 1).drop_last() =~= items_view(tools@).take(i as int));
                    lemma_items_view(out@);
                }
                if !is_image_tool_exec(&tools[i]) {
                    push_item(&mut out, clone_json(&tools[i]));
                }
                i = i + 1;
            }
            proof {
                assert(items_view(tools@).take(tools@.len() as int) =~= items_view(tools@));
                lemma_items_view(out@);
            }
            changed = out.len() != tools.len();
            Some(out)
        },
        _ => None,
    };
    match kept {
        Some(out) => {
            set_member(object, "tools", JsonValue::Array(out));
        },
        None => {},
    }
    let remove_choice = match get_entry(object, "tool_choice") {
        Some(choice) => picks_image_tool_exec(choice),
        None => false,
    };
    if remove_choice {
        remove_member(object, "tool_choice");
        changed = true;
    }
    changed
}

/// The body a Responses request carries upstream for an account, or none
/// where it goes unchanged: where image tools are not allowed, the body
/// without them (when there were any); else, for an account that is not on
/// the free plan, the body with the image tool (when it was added).
pub open spec fn scoped_body(
    target: Seq<char>,
    body: Seq<u8>,
    plan_type: Option<Seq<char>>,
    mode: CodexLocalAccessImageGenerationMode,
    kind: CodexLocalAccessRequestKind,
) -> Option<Seq<u8>> {
    if !is_responses_target(target) {
        None
    } else {
        match request_body_json(body) {
            Some(JsonValue::Object(entries)) => {
                let allowed = match mode {
                    CodexLocalAccessImageGenerationMode::Enabled => true,
                    CodexLocalAccessImageGenerationMode::ImagesOnly => kind
                        == CodexLocalAccessRequestKind::ImageGeneration || kind
                        == CodexLocalAccessRequestKind::ImageEdit,
                    CodexLocalAccessImageGenerationMode::Disabled => false,
                };
                if !allowed {
                    let (e, changed) = removed_tools(entries_view(entries@));
                    if changed {
                        Some(json_bytes(JsonView::Object(e)))
                    } else {
                        None
                    }
                } else if free_plan(plan_type) {
                    None
                } else {
                    match ensured_tools(entries_view(entries@)) {
                        Some(e) => Some(json_bytes(JsonView::Object(e))),
                        None => None,
                    }
                }
            },
            _ => None,
        }
    }
}

/// The plan of an account, by its text.
pub open spec fn plan_text(account: CodexAccount) -> Option<Seq<char>> {
    match account.plan_type {
        Some(p) => Some(p@),
        None => None,
    }
}

/// The body a request carries upstream for an account: `Ok(None)` where it
/// goes unchanged, `Ok(Some(bytes))` where it was rewritten; an error only
/// where the rewritten body could not be serialised.
pub fn build_account_scoped_upstream_body(
    target: &str,
    body: &[u8],
    account: &CodexAccount,
    image_generation_mode: CodexLocalAccessImageGenerationMode,
    request_kind: CodexLocalAccessRequestKind,
) -> (r: Result<Option<Vec<u8>>, String>)
    ensures
        r matches Ok(o) ==> match o {
            Some(b) => scoped_body(target@, body@, plan_text(*account), image_generation_mode, request_kind)
                == Some(b@),
            None => scoped_body(target@, body@, plan_text(*account), image_generation_mode, request_kind)
                is None,
        },
        r is Err ==> scoped_body(target@, body@, plan_text(*account), image_generation_mode, request_kind)
            is Some,
{
    if !is_responses_request(target) {
        return Ok(None);
    }
    let mut entries = match parse_request_body_json(body) {
        Some(JsonValue::Object(entries)) => entries,
        _ => return Ok(None),
    };
    if !image_generation_tools_allowed(image_generation_mode, request_kind) {
        if !remove_image_generation_tool_from_object(&mut entries) {
            return Ok(None);
        }
        return match json_to_vec(&JsonValue::Object(entries)) {
            Ok(b) => Ok(Some(b)),
            Err(e) => Err(concat_str("序列化账号级 responses 请求体失败: ", e.as_str())),
        };
    }
    let plan = match &account.plan_type {
        Some(p) => Some(p.as_str()),
        None => None,
    };
    if is_free_plan_type(plan) {
        return Ok(None);
    }
    if !ensure_image_generation_tool_in_object(&mut entries) {
        return Ok(None);
    }
    match json_to_vec(&JsonValue::Object(entries)) {
        Ok(b) => Ok(Some(b)),
        Err(e) => Err(concat_str("序列化账号级 responses 请求体失败: ", e.as_str())),
    }
}

/// A body with its model resolved to the catalog entry it stands for, in
/// the catalog offered when no presets are configured; whether it changed.
pub open spec fn alias_rewritten(v: JsonView) -> (JsonView, bool) {
    match v {
        JsonView::Object(entries) => match view_text(view_member(entries, "model"@)) {
            Some(m) => {
                let resolved = resolve_alias(m, supported_catalog(Seq::empty()));
                if resolved == m {
                    (v, false)
                } else {
                    (JsonView::Object(view_set(entries, "model"@, JsonView::Str(resolved))), true)
                }
            },
            None => (v, false),
        },
        _ => (v, false),
    }
}

/// Resolves a body's model to its catalog entry; says whether it changed.
pub fn rewrite_request_model_alias_value(body_value: &mut JsonValue) -> (changed: bool)
    ensures
        json_view(*final(body_value)) == alias_rewritten(json_view(*old(body_value))).0,
        changed == alias_rewritten(json_view(*old(body_value))).1,
{
    match body_value {
        JsonValue::Object(entries) => {
            let model = match get_entry(entries, "model") {
                Some(JsonValue::String(m)) => copy(m),
                _ => return false,
            };
            let resolved = resolve_supported_model_alias(model.as_str());
            if str_eq(resolved.as_str(), model.as_str()) {
                return false;
            }
            set_member(entries, "model", JsonValue::String(resolved));
            true
        },
        _ => false,
    }
}

/// The rewritten body bytes of a request whose model names a catalog entry
/// by another id; none where the body is not JSON or nothing changes.
pub open spec fn alias_rewritten_body(body: Seq<u8>) -> Option<Seq<u8>> {
    match request_body_json(body) {
        Some(v) => if alias_rewritten(json_view(v)).1 {
            Some(json_bytes(alias_rewritten(json_view(v)).0))
        } else {
            None
        },
        None => None,
    }
}

/// Rewrites a request body's model to its catalog entry.
pub fn rewrite_request_model_alias(body: &[u8]) -> (r: Result<Option<Vec<u8>>, String>)
    ensures
        r is Ok,
        r matches Ok(o) ==> match o {
            Some(b) => alias_rewritten_body(body@) == Some(b@),
            None => alias_rewritten_body(body@) is None,
        },
        r is Err ==> alias_rewritten_body(body@) is Some,
{
    let mut value = match parse_request_body_json(body) {
        Some(v) => v,
        None => return Ok(None),
    };
    if !rewrite_request_model_alias_value(&mut value) {
        return Ok(None);
    }
    match json_to_vec(&value) {
        Ok(b) => Ok(Some(b)),
        Err(e) => Err(concat_str("重写请求 model 失败: ", e.as_str())),
    }
}

/// Applying a key's model policy to a body: a body that is an object with a
/// model gets the canonical model in its place, unless the model is out of
/// the key's reach, which is an error; whether the body changed.
pub open spec fn policy_rewritten(
    v: JsonView,
    catalog: Seq<Seq<char>>,
    image_allowed: bool,
    collection: CodexLocalAccessCollection,
    key: ResolvedLocalApiKey,
) -> Result<(JsonView, bool), Seq<char>> {
    match v {
        JsonView::Object(entries) => match view_text(view_member(entries, "model"@)) {
            Some(m) => {
                let canonical = canonical_model(m, catalog, collection, key);
                if !model_visible(m, canonical, catalog, image_allowed, collection, key) {
                    Err("模型 "@ + trim(m) + " 不在当前 API Key 的可用模型范围内"@)
                } else if canonical == m {
                    Ok((v, false))
                } else {
                    Ok((JsonView::Object(view_set(entries, "model"@, JsonView::Str(canonical))), true))
                }
            },
            None => Ok((v, false)),
        },
        _ => Ok((v, false)),
    }
}

/// Applies a key's model policy to a body value.
pub fn rewrite_request_model_for_access_policy_value(
    body_value: &mut JsonValue,
    catalog: &Vec<String>,
    image_allowed: bool,
    collection: &CodexLocalAccessCollection,
    api_key: &ResolvedLocalApiKey,
) -> (r: Result<bool, String>)
    ensures
        match policy_rewritten(json_view(*old(body_value)), texts(catalog@), image_allowed, *collection, *api_key) {
            Ok((v, changed)) => r == Ok::<bool, String>(changed) && json_view(*final(body_value)) == v,
            Err(e) => r matches Err(msg) && msg@ == e && *final(body_value) == *old(body_value),
        },
{
    match body_value {
        JsonValue::Object(entries) => {
            let model = match get_entry(entries, "model") {
                Some(JsonValue::String(m)) => copy(m),
                _ => return Ok(false),
            };
            let canonical = canonical_model_for_client_model(model.as_str(), catalog, collection, api_key);
            if !validate_client_model_visible(
                model.as_str(),
                canonical.as_str(),
                catalog,
                image_allowed,
                collection,
                api_key,
            ) {
                let head = concat_str("模型 ", trim_str(model.as_str()).as_str());
                return Err(concat_str(head.as_str(), " 不在当前 API Key 的可用模型范围内"));
            }
            if str_eq(canonical.as_str(), model.as_str()) {
                return Ok(false);
            }
            set_member(entries, "model", JsonValue::String(canonical));
            Ok(true)
        },
        _ => Ok(false),
    }
}

/// Applies a key's model policy to a request: the body is rewritten where
/// its model changes; a model out of reach is an error and leaves the
/// request as it was.
pub fn rewrite_request_model_for_access_policy(
    request: &mut ParsedRequest,
    catalog: &Vec<String>,
    image_allowed: bool,
    collection: &CodexLocalAccessCollection,
    api_key: &ResolvedLocalApiKey,
) -> (r: Result<(), String>)
    ensures
        final(request).method == old(request).method,
        final(request).target == old(request).target,
        final(request).headers == old(request).headers,
        match request_body_json(old(request).body@) {
            None => r is Ok && final(request).body@ == old(request).body@,
            Some(v) => match policy_rewritten(json_view(v), texts(catalog@), image_allowed, *collection, *api_key) {
                Ok((nv, changed)) => if changed {
                    r is Ok ==> final(request).body@ == json_bytes(nv)
                } else {
                    r is Ok && final(request).body@ == old(request).body@
                },
                Err(e) => r matches Err(msg) && msg@ == e && final(request).body@ == old(request).body@,
            },
        },
{
    let mut value = match parse_request_body_json(request.body.as_slice()) {
        Some(v) => v,
        None => return Ok(()),
    };
    let changed = match rewrite_request_model_for_access_policy_value(
        &mut value,
        catalog,
        image_allowed,
        collection,
        api_key,
    ) {
        Ok(c) => c,
        Err(e) => return Err(e),
    };
    if !changed {
        return Ok(());
    }
    match json_to_vec(&value) {
        Ok(b) => {
            request.body = b;
            Ok(())
        },
        Err(e) => Err(concat_str("序列化模型访问规则后的请求体失败: ", e.as_str())),
    }
}

} // verus!
