//! Text-to-image and image-to-image generation: model resolution, request
//! bodies, calling mode and image extraction.

use vstd::prelude::*;

use crate::error::{error_detail, AppError};
use crate::json::{items_view, json_view, lemma_items_push, members_view, Json, JsonValue};
use crate::models::config::{
    pairs_view, ApiMode, AsyncPollConfig, AsyncPollSpec, Configuration, ModelConfig,
    ModelConfigSpec, ResponseFormat, ServiceType,
};
use crate::models::api::{GenerationEvent, GenerationParams};
use crate::models::config::opt_view;
use crate::services::image_utils::{base64_standard, data_uri, image_mime};
use crate::services::template_engine::{
    child, default_img2img_template, default_text2img_template, extract_base64_images,
    extract_strings, extracted_inline_images, extracted_strings, img2img_template,
    infer_service_type, inferred_service_type, json_str, lemma_members1, lemma_members2, member,
    member_get, object, render, render_items, render_members, render_template, strings_view,
    text2img_template, TemplateVars, brace, is_whole_placeholder, lookup, lemma_whole_placeholder,
};
use vstd::string::StringSliceAdditionalSpecFns;
use vstd::utf8::{
    decode_utf8, decode_utf8_encode_utf8, encode_utf8, encode_utf8_decode_utf8,
    encode_utf8_valid_utf8, is_ascii_chars, is_ascii_chars_encode_utf8, is_char_boundary,
    valid_utf8_split,
};

use crate::error::error_message;
use crate::text::{append_str, blank, contains, decimal, is_blank, push_decimal, chars_of, has_infix, has_prefix, str_contains, string_of};

verus! {

// ── Model resolution ──

/// The name of the `m`-th model of the `p`-th provider.
pub open spec fn model_name_at(c: &Configuration, p: int, m: int) -> Seq<char> {
    c.providers@[p].1.models@[m].0@
}

/// `(p, m)` designates a model of the configuration.
pub open spec fn valid_position(c: &Configuration, p: int, m: int) -> bool {
    0 <= p < c.providers@.len() && 0 <= m < c.providers@[p].1.models@.len()
}

/// `(p1, m1)` comes before `(p2, m2)` in file order.
pub open spec fn comes_before(p1: int, m1: int, p2: int, m2: int) -> bool {
    p1 < p2 || (p1 == p2 && m1 < m2)
}

/// The service type a model serves: the configured one, else the one its
/// name suggests.
pub open spec fn effective_service_type(name: Seq<char>, mc: &ModelConfig) -> ServiceType {
    match mc.service_type {
        Some(t) => t,
        None => inferred_service_type(name),
    }
}

/// The model at `(p, m)` is the first, in file order, named `name`.
pub open spec fn first_named(c: &Configuration, p: int, m: int, name: Seq<char>) -> bool {
    &&& valid_position(c, p, m)
    &&& model_name_at(c, p, m) == name
    &&& forall|p2: int, m2: int|
        valid_position(c, p2, m2) && comes_before(p2, m2, p, m) ==> model_name_at(c, p2, m2)
            != name
}

/// The model at `(p, m)` is the first, in file order, serving `t`.
pub open spec fn first_of_type(c: &Configuration, p: int, m: int, t: ServiceType) -> bool {
    &&& valid_position(c, p, m)
    &&& effective_service_type(model_name_at(c, p, m), &c.providers@[p].1.models@[m].1) == t
    &&& forall|p2: int, m2: int|
        valid_position(c, p2, m2) && comes_before(p2, m2, p, m) ==> effective_service_type(
            model_name_at(c, p2, m2),
            &c.providers@[p2].1.models@[m2].1,
        ) != t
}

/// The name of a service type as written in the configuration file.
pub open spec fn service_type_name(t: ServiceType) -> Seq<char> {
    match t {
        ServiceType::Text2img => "text2img"@,
        ServiceType::Img2img => "img2img"@,
        ServiceType::Translate => "translate"@,
    }
}

/// The name of a service type as written in the configuration file.
pub fn service_type_text(t: ServiceType) -> (s: &'static str)
    ensures
        s@ == service_type_name(t),
{
    match t {
        ServiceType::Text2img => "text2img",
        ServiceType::Img2img => "img2img",
        ServiceType::Translate => "translate",
    }
}

/// Whether two strings are equal.
pub(crate) fn same_text(a: &str, b: &str) -> (r: bool)
    ensures
        r == (a@ == b@),
{
    let av = chars_of(a);
    let bv = chars_of(b);
    if av.len() != bv.len() {
        return false;
    }
    assert(av@.subrange(0, bv@.len() as int) =~= av@);
    crate::text::starts_with(&av, &bv)
}

/// Find the configured model named `name`: the first model of that name, in
/// file order, over all providers. Returns its provider's API key and its
/// configuration.
pub fn find_model_config<'a>(config: &'a Configuration, name: &str) -> (r: Result<
    (&'a String, &'a ModelConfig),
    AppError,
>)
    ensures
        match r {
            Ok((key, mc)) => exists|p: int, m: int|
                first_named(config, p, m, name@) && *key == config.providers@[p].1.api_key && *mc
                    == config.providers@[p].1.models@[m].1,
            Err(e) => (forall|p: int, m: int|
                valid_position(config, p, m) ==> model_name_at(config, p, m) != name@) && e
                is Config && error_detail(e) == "Model '"@ + name@ + "' not found in configuration"@,
        },
{
    let mut p: usize = 0;
    while p < config.providers.len()
        invariant
            p <= config.providers@.len(),
            forall|p2: int, m2: int|
                valid_position(config, p2, m2) && p2 < p ==> model_name_at(config, p2, m2) != name@,
        decreases config.providers.len() - p,
    {
        let models = &config.providers[p].1.models;
        let mut m: usize = 0;
        while m < models.len()
            invariant
                p < config.providers@.len(),
                *models == config.providers@[p as int].1.models,
                m <= models@.len(),
                forall|p2: int, m2: int|
                    valid_position(config, p2, m2) && p2 < p ==> model_name_at(config, p2, m2)
                        != name@,
                forall|m2: int| 0 <= m2 < m ==> model_name_at(config, p as int, m2) != name@,
            decreases models.len() - m,
        {
            if same_text(models[m].0.as_str(), name) {
                assert(first_named(config, p as int, m as int, name@));
                return Ok((&config.providers[p].1.api_key, &models[m].1));
            }
            m = m + 1;
        }
        p = p + 1;
    }
    let mut msg = String::new();
    append_str(&mut msg, "Model '");
    append_str(&mut msg, name);
    append_str(&mut msg, "' not found in configuration");
    Err(AppError::Config(msg))
}

/// Find the first configured model, in file order over all providers, that
/// serves the service type `target` (see [`effective_service_type`]).
/// Returns its provider's API key, its name and its configuration.
pub fn find_model_by_service_type<'a>(config: &'a Configuration, target: ServiceType) -> (r:
    Result<(&'a String, String, &'a ModelConfig), AppError>)
    ensures
        match r {
            Ok((key, name, mc)) => exists|p: int, m: int|
                first_of_type(config, p, m, target) && *key == config.providers@[p].1.api_key
                    && name@ == model_name_at(config, p, m) && *mc
                    == config.providers@[p].1.models@[m].1,
            Err(e) => (forall|p: int, m: int|
                valid_position(config, p, m) ==> effective_service_type(
                    model_name_at(config, p, m),
                    &config.providers@[p].1.models@[m].1,
                ) != target) && e is Config && error_detail(e) == "No model configured for service type '"@
                + service_type_name(target) + "'"@,
        },
{
    let mut p: usize = 0;
    while p < config.providers.len()
        invariant
            p <= config.providers@.len(),
            forall|p2: int, m2: int|
                valid_position(config, p2, m2) && p2 < p ==> effective_service_type(
                    model_name_at(config, p2, m2),
                    &config.providers@[p2].1.models@[m2].1,
                ) != target,
        decreases config.providers.len() - p,
    {
        let models = &config.providers[p].1.models;
        let mut m: usize = 0;
        while m < models.len()
            invariant
                p < config.providers@.len(),
                *models == config.providers@[p as int].1.models,
                m <= models@.len(),
                forall|p2: int, m2: int|
                    valid_position(config, p2, m2) && p2 < p ==> effective_service_type(
                        model_name_at(config, p2, m2),
                        &config.providers@[p2].1.models@[m2].1,
                    ) != target,
                forall|m2: int|
                    0 <= m2 < m ==> effective_service_type(
                        model_name_at(config, p as int, m2),
                        &config.providers@[p as int].1.models@[m2].1,
                    ) != target,
            decreases models.len() - m,
        {
            let mc = &models[m].1;
            let t = match mc.service_type {
                Some(t) => t,
                None => infer_service_type(models[m].0.as_str()),
            };
            if t == target {
                assert(first_of_type(config, p as int, m as int, target));
                return Ok((&config.providers[p].1.api_key, models[m].0.clone(), mc));
            }
            m = m + 1;
        }
        p = p + 1;
    }
    let mut msg = String::new();
    append_str(&mut msg, "No model configured for service type '");
    append_str(&mut msg, service_type_text(target));
    append_str(&mut msg, "'");
    Err(AppError::Config(msg))
}

/// Resolve the model that serves a request: the one named `model_name` where
/// a name is given, else the first serving `target_type`.
///
/// Returns `(api_key, resolved_model_name, model_config)`.
pub fn resolve_model(
    config: &Configuration,
    model_name: &Option<String>,
    target_type: ServiceType,
) -> (r: Result<(String, String, ModelConfig), AppError>)
    ensures
        match model_name {
            Some(name) => match r {
                Ok((key, resolved, mc)) => resolved@ == name@ && exists|p: int, m: int|
                    first_named(config, p, m, name@) && key@ == config.providers@[p].1.api_key@
                        && mc@ == config.providers@[p].1.models@[m].1@,
                Err(e) => (forall|p: int, m: int|
                    valid_position(config, p, m) ==> model_name_at(config, p, m) != name@) && e
                    is Config && error_detail(e) == "Model '"@ + name@
                    + "' not found in configuration"@,
            },
            None => match r {
                Ok((key, resolved, mc)) => exists|p: int, m: int|
                    first_of_type(config, p, m, target_type) && key@
                        == config.providers@[p].1.api_key@ && resolved@ == model_name_at(
                        config,
                        p,
                        m,
                    ) && mc@ == config.providers@[p].1.models@[m].1@,
                Err(e) => (forall|p: int, m: int|
                    valid_position(config, p, m) ==> effective_service_type(
                        model_name_at(config, p, m),
                        &config.providers@[p].1.models@[m].1,
                    ) != target_type) && e is Config && error_detail(e)
                    == "No model configured for service type '"@ + service_type_name(target_type)
                    + "'"@,
            },
        },
{
    match model_name {
        Some(name) => {
            match find_model_config(config, name.as_str()) {
                Ok((key, mc)) => Ok((key.clone(), name.clone(), mc.duplicate())),
                Err(e) => Err(e),
            }
        },
        None => {
            match find_model_by_service_type(config, target_type) {
                Ok((key, name, mc)) => Ok((key.clone(), name, mc.duplicate())),
                Err(e) => Err(e),
            }
        },
    }
}

// ── Calling mode ──

/// The DashScope async endpoints' poll configuration.
pub open spec fn dashscope_poll() -> AsyncPollSpec {
    AsyncPollSpec {
        submit_headers: seq![("X-DashScope-Async"@, "enable"@)],
        poll_url: "https://dashscope.aliyuncs.com/api/v1/tasks/{task_id}"@,
        poll_interval_secs: 3,
        timeout_secs: 180,
    }
}

/// Default `AsyncPollConfig` for DashScope async endpoints.
pub fn default_dashscope_poll_config() -> (c: AsyncPollConfig)
    ensures
        c@ == dashscope_poll(),
{
    let mut name = String::new();
    append_str(&mut name, "X-DashScope-Async");
    let mut value = String::new();
    append_str(&mut value, "enable");
    let mut poll_url = String::new();
    append_str(&mut poll_url, "https://dashscope.aliyuncs.com/api/v1/tasks/{task_id}");
    let headers = vec![(name, value)];
    assert(pairs_view(headers@) =~= seq![("X-DashScope-Async"@, "enable"@)]);
    AsyncPollConfig { submit_headers: headers, poll_url, poll_interval_secs: 3, timeout_secs: 180 }
}

/// The model of an optional poll configuration.
pub open spec fn opt_poll(o: Option<AsyncPollConfig>) -> Option<AsyncPollSpec> {
    match o {
        Some(p) => Some(p@),
        None => None,
    }
}

/// The calling mode and poll configuration used for a model in generation.
///
/// A model configured as async_poll polls with its own poll configuration,
/// else DashScope's. A sync model whose service type and poll configuration
/// are both unset is upgraded to async_poll with DashScope's configuration
/// when its name suggests text-to-image or translation, which were
/// historically asynchronous on DashScope.
pub open spec fn generation_mode(mc: ModelConfigSpec, name: Seq<char>) -> (ApiMode, Option<AsyncPollSpec>) {
    match mc.mode {
        ApiMode::AsyncPoll => (
            ApiMode::AsyncPoll,
            Some(
                match mc.async_poll {
                    Some(p) => p,
                    None => dashscope_poll(),
                },
            ),
        ),
        ApiMode::Sync => if mc.service_type is None && mc.async_poll is None {
            match inferred_service_type(name) {
                ServiceType::Img2img => (ApiMode::Sync, None),
                _ => (ApiMode::AsyncPoll, Some(dashscope_poll())),
            }
        } else {
            (ApiMode::Sync, None)
        },
    }
}

/// Resolve the effective API mode for a model config (see [`generation_mode`]).
pub fn resolve_mode_and_poll(mc: &ModelConfig, model_name: &str) -> (r: (ApiMode, Option<AsyncPollConfig>))
    ensures
        (r.0, opt_poll(r.1)) == generation_mode(mc@, model_name@),
{
    match mc.mode {
        ApiMode::AsyncPoll => {
            let poll = match &mc.async_poll {
                Some(p) => p.duplicate(),
                None => default_dashscope_poll_config(),
            };
            (ApiMode::AsyncPoll, Some(poll))
        },
        ApiMode::Sync => {
            if mc.service_type.is_none() && mc.async_poll.is_none() {
                match infer_service_type(model_name) {
                    ServiceType::Img2img => (ApiMode::Sync, None),
                    _ => (ApiMode::AsyncPoll, Some(default_dashscope_poll_config())),
                }
            } else {
                (ApiMode::Sync, None)
            }
        },
    }
}

// ── Response image extraction ──

/// The path at which a model's response holds its images: the configured
/// one, else `output.choices[*].message.content[*].image` for image editing
/// and `output.results[*].url` otherwise.
pub open spec fn response_path(mc: ModelConfigSpec, name: Seq<char>) -> Seq<char> {
    match mc.response_image_path {
        Some(p) => p,
        None => match (match mc.service_type {
            Some(t) => t,
            None => inferred_service_type(name),
        }) {
            ServiceType::Img2img => "output.choices[*].message.content[*].image"@,
            _ => "output.results[*].url"@,
        },
    }
}

/// Default response image path for a service type (see [`response_path`]).
pub fn default_response_path(mc: &ModelConfig, model_name: &str) -> (p: String)
    ensures
        p@ == response_path(mc@, model_name@),
{
    match &mc.response_image_path {
        Some(path) => path.clone(),
        None => {
            let st = match mc.service_type {
                Some(t) => t,
                None => infer_service_type(model_name),
            };
            let mut p = String::new();
            match st {
                ServiceType::Img2img => append_str(&mut p, "output.choices[*].message.content[*].image"),
                _ => append_str(&mut p, "output.results[*].url"),
            }
            p
        },
    }
}

/// The images of a response: the strings at the response path for the URL
/// format, the data URIs of the inline images there for the Base64 format.
pub open spec fn response_images(resp: JsonValue, mc: ModelConfigSpec, name: Seq<char>) -> Seq<Seq<char>> {
    match mc.response_format {
        ResponseFormat::Url => extracted_strings(resp, response_path(mc, name)),
        ResponseFormat::Base64 => extracted_inline_images(resp, response_path(mc, name)),
    }
}

/// Extract images from an API response based on the configured response format.
///
/// - `ResponseFormat::Url`: Extract URL strings from the response path
/// - `ResponseFormat::Base64`: Extract base64 data and convert to data: URIs
pub fn extract_images(resp: &Json, mc: &ModelConfig, model_name: &str) -> (urls: Vec<String>)
    ensures
        strings_view(urls@) == response_images(resp@, mc@, model_name@),
{
    let response_path = default_response_path(mc, model_name);
    match mc.response_format {
        ResponseFormat::Url => extract_strings(resp, response_path.as_str()),
        ResponseFormat::Base64 => extract_base64_images(resp, response_path.as_str()),
    }
}

// ── Data URIs ──

/// The first index of `c` in `s`, if `c` occurs.
pub open spec fn first_index_of(s: Seq<char>, c: char) -> Option<int>
    decreases s.len(),
{
    if s.len() == 0 {
        None
    } else if s[0] == c {
        Some(0)
    } else {
        match first_index_of(s.drop_first(), c) {
            Some(i) => Some(i + 1),
            None => None,
        }
    }
}

/// The parts of a data URI `data:{mime};base64,{data}`: the MIME type runs
/// to the first `;`, which must be followed by `base64,`.
pub open spec fn data_uri_parts(uri: Seq<char>) -> Option<(Seq<char>, Seq<char>)> {
    if !has_prefix(uri, "data:"@) {
        None
    } else {
        let rest = uri.skip(5);
        match first_index_of(rest, ';') {
            None => None,
            Some(i) => if has_prefix(rest.skip(i + 1), "base64,"@) {
                Some((rest.take(i), rest.skip(i + 1).skip(7)))
            } else {
                None
            },
        }
    }
}

proof fn lemma_first_index(s: Seq<char>, c: char, i: int)
    requires
        0 <= i < s.len(),
        s[i] == c,
        forall|j: int| 0 <= j < i ==> s[j] != c,
    ensures
        first_index_of(s, c) == Some(i),
    decreases i,
{
    if i > 0 {
        lemma_first_index(s.drop_first(), c, i - 1);
    }
}

proof fn lemma_first_index_none(s: Seq<char>, c: char)
    requires
        forall|j: int| 0 <= j < s.len() ==> s[j] != c,
    ensures
        first_index_of(s, c) == None::<int>,
    decreases s.len(),
{
    if s.len() > 0 {
        lemma_first_index_none(s.drop_first(), c);
    }
}

/// Parse a data URI into (mimeType, base64Data).
///
/// Example: `"data:image/png;base64,iVBORw..."` → `("image/png", "iVBORw...")`
pub fn parse_data_uri(data_uri: &str) -> (r: Option<(String, String)>)
    ensures
        match r {
            Some((mime, data)) => data_uri_parts(data_uri@) == Some((mime@, data@)),
            None => data_uri_parts(data_uri@) == None::<(Seq<char>, Seq<char>)>,
        },
{
    let v = chars_of(data_uri);
    let prefix = chars_of("data:");
    if !crate::text::starts_with(&v, &prefix) {
        return None;
    }
    proof {
        reveal_strlit("data:");
        reveal_strlit("base64,");
    }
    assert(prefix@.len() == 5);
    let ghost rest = v@.skip(5);
    let mut i: usize = 5;
    while i < v.len() && v[i] != ';'
        invariant
            5 <= i <= v@.len(),
            rest == v@.skip(5),
            forall|j: int| 5 <= j < i ==> v@[j] != ';',
        decreases v.len() - i,
    {
        i = i + 1;
    }
    if i == v.len() {
        proof {
            lemma_first_index_none(rest, ';');
        }
        return None;
    }
    proof {
        lemma_first_index(rest, ';', i - 5);
    }
    let marker = chars_of("base64,");
    assert(marker@.len() == 7);
    assert(rest.skip(i - 5 + 1) =~= v@.skip(i + 1));
    if !crate::text::matches_at(&v, &marker, i + 1) {
        assert(!has_prefix(v@.skip(i + 1), "base64,"@)) by {
            if has_prefix(v@.skip(i + 1), "base64,"@) {
                assert(v@.subrange(i + 1, i + 8) =~= v@.skip(i + 1).subrange(0, 7));
            }
        }
        return None;
    }
    assert(has_prefix(v@.skip(i + 1), "base64,"@)) by {
        assert(v@.subrange(i + 1, i + 8) =~= v@.skip(i + 1).subrange(0, 7));
    }
    let mime = string_of(&v, 5, i);
    let data = string_of(&v, i + 8, v.len());
    assert(mime@ =~= rest.take(i - 5));
    assert(data@ =~= rest.skip(i - 5 + 1).skip(7));
    Some((mime, data))
}

// ── Debug output ──

fn truncate_items_of(items: &Vec<Json>) -> (r: Vec<Json>)
    requires
        cuttable_items(items_view(items@)),
    ensures
        items_view(r@) == truncated_items(items_view(items@)),
    decreases items,
{
    let mut r: Vec<Json> = Vec::new();
    let mut i: usize = 0;
    assert(items@.take(0) =~= Seq::<Json>::empty());
    while i < items.len()
        invariant
            i <= items@.len(),
            cuttable_items(items_view(items@)),
            items_view(r@) == truncated_items(items_view(items@.take(i as int))),
        decreases items.len() - i,
    {
        proof {
            crate::json::lemma_items_view(items@);
            lemma_cuttable_items(items_view(items@), i + 1);
            assert(items_view(items@).take(i + 1).last() == json_view(items@[i as int]));
        }
        assert(items@.take(i + 1).drop_last() == items@.take(i as int));
        assert(items@.take(i + 1).last() == items@[i as int]);
        let ghost prefix = items_view(items@.take(i as int));
        assert(items_view(items@.take(i + 1)) == prefix.push(json_view(items@[i as int])));
        assert(prefix.push(json_view(items@[i as int])).drop_last() == prefix);
        let ghost before = r@;
        let x = truncate_base64_in_json(&items[i]);
        r.push(x);
        assert(r@.drop_last() == before);
        assert(items_view(r@) == items_view(before).push(json_view(x)));
        i = i + 1;
    }
    assert(items@.take(items@.len() as int) == items@);
    r
}

fn truncate_members_of(members: &Vec<(String, Json)>) -> (r: Vec<(String, Json)>)
    requires
        cuttable_members(members_view(members@)),
    ensures
        members_view(r@) == truncated_members(members_view(members@)),
    decreases members,
{
    let mut r: Vec<(String, Json)> = Vec::new();
    let mut i: usize = 0;
    assert(members@.take(0) =~= Seq::<(String, Json)>::empty());
    while i < members.len()
        invariant
            i <= members@.len(),
            cuttable_members(members_view(members@)),
            members_view(r@) == truncated_members(members_view(members@.take(i as int))),
        decreases members.len() - i,
    {
        proof {
            crate::json::lemma_members_view(members@);
            lemma_cuttable_members(members_view(members@), i + 1);
            assert(members_view(members@).take(i + 1).last() == (
                members@[i as int].0@,
                json_view(members@[i as int].1),
            ));
        }
        assert(members@.take(i + 1).drop_last() == members@.take(i as int));
        assert(members@.take(i + 1).last() == members@[i as int]);
        let ghost prefix = members_view(members@.take(i as int));
        let ghost entry = (members@[i as int].0@, json_view(members@[i as int].1));
        assert(members_view(members@.take(i + 1)) == prefix.push(entry));
        assert(prefix.push(entry).drop_last() == prefix);
        let ghost before = r@;
        let x = truncate_base64_in_json(&members[i].1);
        let k = members[i].0.clone();
        r.push((k, x));
        assert(r@.drop_last() == before);
        assert(members_view(r@) == members_view(before).push((k@, json_view(x))));
        i = i + 1;
    }
    assert(members@.take(members@.len() as int) == members@);
    r
}

/// The length in bytes of a string's UTF-8 encoding.
pub open spec fn byte_len(s: Seq<char>) -> nat {
    encode_utf8(s).len()
}

/// A string that looks like Base64 data: longer than 100 bytes, without spaces.
pub open spec fn looks_like_base64(s: Seq<char>) -> bool {
    byte_len(s) > 100 && !has_infix(s, seq![' '])
}

/// The shortened form of such a string: its first 50 bytes, then
/// `...[truncated N chars]` where N is the number of remaining bytes.
pub open spec fn shortened(s: Seq<char>) -> Seq<char> {
    decode_utf8(encode_utf8(s).subrange(0, 50)) + "...[truncated "@ + decimal((byte_len(s) - 50) as nat)
        + " chars]"@
}

/// A JSON value with every string that looks like Base64 data shortened.
pub open spec fn truncated(v: JsonValue) -> JsonValue
    decreases v, 0int,
{
    match v {
        JsonValue::Str(s) => if looks_like_base64(s) {
            JsonValue::Str(shortened(s))
        } else {
            v
        },
        JsonValue::Array(items) => JsonValue::Array(truncated_items(items)),
        JsonValue::Object(members) => JsonValue::Object(truncated_members(members)),
        _ => v,
    }
}

pub open spec fn truncated_items(items: Seq<JsonValue>) -> Seq<JsonValue>
    decreases items, 1int,
{
    if items.len() == 0 {
        Seq::empty()
    } else {
        truncated_items(items.drop_last()).push(truncated(items.last()))
    }
}

pub open spec fn truncated_members(members: Seq<(Seq<char>, JsonValue)>) -> Seq<(Seq<char>, JsonValue)>
    decreases members, 1int,
{
    if members.len() == 0 {
        Seq::empty()
    } else {
        truncated_members(members.drop_last()).push(
            (members.last().0, truncated(members.last().1)),
        )
    }
}

/// Every string of `v` has a byte length that fits `usize` (as every string
/// in memory does), and every one that looks like Base64 data can be cut
/// after its 50th byte: that byte ends a character. Elsewhere the cut would
/// panic.
pub open spec fn cuttable(v: JsonValue) -> bool
    decreases v, 0int,
{
    match v {
        JsonValue::Str(s) => byte_len(s) <= usize::MAX && (looks_like_base64(s) ==> is_char_boundary(
            encode_utf8(s),
            50,
        )),
        JsonValue::Array(items) => cuttable_items(items),
        JsonValue::Object(members) => cuttable_members(members),
        _ => true,
    }
}

pub open spec fn cuttable_items(items: Seq<JsonValue>) -> bool
    decreases items, 1int,
{
    items.len() > 0 ==> cuttable_items(items.drop_last()) && cuttable(items.last())
}

pub open spec fn cuttable_members(members: Seq<(Seq<char>, JsonValue)>) -> bool
    decreases members, 1int,
{
    members.len() > 0 ==> cuttable_members(members.drop_last()) && cuttable(members.last().1)
}

proof fn lemma_cuttable_items(items: Seq<JsonValue>, i: int)
    requires
        cuttable_items(items),
        0 <= i <= items.len(),
    ensures
        cuttable_items(items.take(i)),
    decreases items.len(),
{
    if i < items.len() {
        assert(items.drop_last().take(i) =~= items.take(i));
        lemma_cuttable_items(items.drop_last(), i);
    } else {
        assert(items.take(i) =~= items);
    }
}

proof fn lemma_cuttable_members(members: Seq<(Seq<char>, JsonValue)>, i: int)
    requires
        cuttable_members(members),
        0 <= i <= members.len(),
    ensures
        cuttable_members(members.take(i)),
    decreases members.len(),
{
    if i < members.len() {
        assert(members.drop_last().take(i) =~= members.take(i));
        lemma_cuttable_members(members.drop_last(), i);
    } else {
        assert(members.take(i) =~= members);
    }
}

/// Truncate Base64 data in JSON for debug logging (see [`truncated`]).
pub fn truncate_base64_in_json(value: &Json) -> (r: Json)
    requires
        cuttable(value@),
    ensures
        r@ == truncated(value@),
    decreases value,
{
    match value {
        Json::String(s) => {
            let st: &str = s.as_str();
            let n = st.len();
            let sv = chars_of(st);
            let space = vec![' '];
            assert(space@ =~= seq![' ']);
            if n > 100 && !contains(&sv, &space) {
                let (head, _tail) = st.split_at(50);
                proof {
                    encode_utf8_decode_utf8(head@);
                    assert(head@ == decode_utf8(encode_utf8(s@).subrange(0, 50)));
                }
                let mut out = String::new();
                append_str(&mut out, head);
                append_str(&mut out, "...[truncated ");
                push_decimal(&mut out, (n - 50) as u64);
                append_str(&mut out, " chars]");
                Json::String(out)
            } else {
                Json::String(s.clone())
            }
        },
        Json::Array(items) => Json::Array(truncate_items_of(items)),
        Json::Object(members) => Json::Object(truncate_members_of(members)),
        Json::Null => Json::Null,
        Json::Bool(b) => Json::Bool(*b),
        Json::Number(n) => Json::Number(n.clone()),
    }
}

// ── Request bodies ──

/// The configured request template, else the default one.
pub open spec fn template_or(t: Option<JsonValue>, default: JsonValue) -> JsonValue {
    match t {
        Some(t) => t,
        None => default,
    }
}

/// The requested size, else the default one.
pub open spec fn size_or(size: Option<Seq<char>>, default: Seq<char>) -> Seq<char> {
    match size {
        Some(s) => s,
        None => default,
    }
}

/// `r` is the rendered body, or, where rendering omits the whole body, the
/// API error "Failed to render request template".
pub open spec fn request_outcome(r: Result<Json, AppError>, body: Option<JsonValue>) -> bool {
    match body {
        Some(b) => r matches Ok(j) && j@ == b,
        None => r matches Err(e) && e is Api && error_detail(e)
            == "Failed to render request template"@,
    }
}

/// Renders the model's request template, or `default` where it has none.
pub fn render_body(mc: &ModelConfig, default: Json, vars: &TemplateVars) -> (r: Result<Json, AppError>)
    ensures
        request_outcome(r, render(template_or(mc@.request_template, default@), vars@)),
{
    let rendered = match &mc.request_template {
        Some(t) => render_template(t, vars),
        None => render_template(&default, vars),
    };
    match rendered {
        Some(b) => Ok(b),
        None => {
            let mut m = String::new();
            append_str(&mut m, "Failed to render request template");
            Err(AppError::Api(m))
        },
    }
}

/// The variables of a text-to-image request: `model` and `prompt`, then
/// `size` only for models that support it.
pub open spec fn text2img_vars(name: Seq<char>, prompt: Seq<char>, supports_size: bool, size: Seq<char>) -> Seq<
    (Seq<char>, JsonValue),
> {
    let base = seq![("model"@, JsonValue::Str(name)), ("prompt"@, JsonValue::Str(prompt))];
    if supports_size {
        base.push(("size"@, JsonValue::Str(size)))
    } else {
        base
    }
}

/// A copy of an optional string, else a default.
fn text_or(o: &Option<String>, default: &str) -> (s: String)
    ensures
        s@ == size_or(opt_view(*o), default@),
{
    match o {
        Some(t) => t.clone(),
        None => {
            let mut t = String::new();
            append_str(&mut t, default);
            t
        },
    }
}

/// The body of a text-to-image request: the model's template (else the
/// default one) rendered with the variables of [`text2img_vars`], where the
/// size defaults to `1024*1024`.
pub fn text2img_request(
    resolved_name: &str,
    prompt: &str,
    mc: &ModelConfig,
    params: &GenerationParams,
) -> (r: Result<Json, AppError>)
    ensures
        request_outcome(
            r,
            render(
                template_or(mc@.request_template, text2img_template()),
                text2img_vars(
                    resolved_name@,
                    prompt@,
                    mc.supports_size,
                    size_or(opt_view(params.size), "1024*1024"@),
                ),
            ),
        ),
{
    proof {
        reveal_strlit("model");
        reveal_strlit("prompt");
        reveal_strlit("size");
    }
    let mut vars = TemplateVars::new();
    vars.insert("model", json_str(resolved_name));
    assert(vars@ =~= seq![("model"@, JsonValue::Str(resolved_name@))]);
    assert("model"@.len() == 5 && "prompt"@.len() == 6 && "size"@.len() == 4);
    assert("model"@ != "prompt"@);
    vars.insert("prompt", json_str(prompt));
    assert(vars@ =~= seq![("model"@, JsonValue::Str(resolved_name@)), ("prompt"@, JsonValue::Str(prompt@))]);
    if mc.supports_size {
        let size = text_or(&params.size, "1024*1024");
        assert("model"@ != "size"@ && "prompt"@ != "size"@);
        vars.insert("size", Json::String(size));
    }
    assert(vars@ =~= text2img_vars(
        resolved_name@,
        prompt@,
        mc.supports_size,
        size_or(opt_view(params.size), "1024*1024"@),
    ));
    render_body(mc, default_text2img_template(), &vars)
}

/// The DashScope content item for an image: `{ "image": uri }`.
pub open spec fn image_part(uri: Seq<char>) -> JsonValue {
    JsonValue::Object(seq![("image"@, JsonValue::Str(uri))])
}

/// The OpenAI content item for an image:
/// `{ "type": "image_url", "image_url": { "url": uri } }`.
pub open spec fn openai_image_part(uri: Seq<char>) -> JsonValue {
    JsonValue::Object(
        seq![
            ("type"@, JsonValue::Str("image_url"@)),
            ("image_url"@, JsonValue::Object(seq![("url"@, JsonValue::Str(uri))])),
        ],
    )
}

/// The Gemini parts for the images given as data URIs:
/// `{ "inlineData": { "mimeType": mime, "data": data } }`; images given
/// otherwise (such as HTTP URLs) have none.
pub open spec fn gemini_image_parts(uris: Seq<Seq<char>>) -> Seq<JsonValue>
    decreases uris.len(),
{
    if uris.len() == 0 {
        Seq::empty()
    } else {
        gemini_image_parts(uris.drop_last()) + match data_uri_parts(uris.last()) {
            Some((mime, data)) => seq![
                JsonValue::Object(
                    seq![
                        (
                            "inlineData"@,
                            JsonValue::Object(
                                seq![
                                    ("mimeType"@, JsonValue::Str(mime)),
                                    ("data"@, JsonValue::Str(data)),
                                ],
                            ),
                        ),
                    ],
                ),
            ],
            None => Seq::empty(),
        }
    }
}

/// The DashScope content: an item per image, then `{ "text": prompt }`.
pub open spec fn dashscope_content(uris: Seq<Seq<char>>, prompt: Seq<char>) -> Seq<JsonValue> {
    uris.map_values(|u: Seq<char>| image_part(u)).push(
        JsonValue::Object(seq![("text"@, JsonValue::Str(prompt))]),
    )
}

/// The OpenAI content: an item per image, then `{ "type": "text", "text": prompt }`.
pub open spec fn openai_content(uris: Seq<Seq<char>>, prompt: Seq<char>) -> Seq<JsonValue> {
    uris.map_values(|u: Seq<char>| openai_image_part(u)).push(
        JsonValue::Object(seq![("type"@, JsonValue::Str("text"@)), ("text"@, JsonValue::Str(prompt))]),
    )
}

/// The Gemini parts: the inline images, then `{ "text": prompt }`.
pub open spec fn gemini_content(uris: Seq<Seq<char>>, prompt: Seq<char>) -> Seq<JsonValue> {
    gemini_image_parts(uris).push(JsonValue::Object(seq![("text"@, JsonValue::Str(prompt))]))
}

/// The variables of an image-editing request: `model`, `prompt`, `size`
/// (only for models that support it), then the content arrays `content`
/// (DashScope), `openai_content` and `gemini_parts`.
pub open spec fn img2img_vars(
    name: Seq<char>,
    prompt: Seq<char>,
    supports_size: bool,
    size: Seq<char>,
    uris: Seq<Seq<char>>,
) -> Seq<(Seq<char>, JsonValue)> {
    text2img_vars(name, prompt, supports_size, size) + seq![
        ("content"@, JsonValue::Array(dashscope_content(uris, prompt))),
        ("openai_content"@, JsonValue::Array(openai_content(uris, prompt))),
        ("gemini_parts"@, JsonValue::Array(gemini_content(uris, prompt))),
    ]
}

/// An object of one member.
fn object1(key: &str, value: Json) -> (j: Json)
    ensures
        j@ == JsonValue::Object(seq![(key@, value@)]),
{
    let m = member(key, value);
    let v = vec![m];
    proof {
        lemma_members1(v@[0]);
        assert(v@ =~= seq![v@[0]]);
    }
    object(v)
}

/// An object of two members.
fn object2(k1: &str, v1: Json, k2: &str, v2: Json) -> (j: Json)
    ensures
        j@ == JsonValue::Object(seq![(k1@, v1@), (k2@, v2@)]),
{
    let a = member(k1, v1);
    let b = member(k2, v2);
    let v = vec![a, b];
    proof {
        lemma_members2(v@[0], v@[1]);
        assert(v@ =~= seq![v@[0], v@[1]]);
    }
    object(v)
}

/// The three content arrays of an image-editing request.
pub fn img2img_content(image_uris: &Vec<String>, prompt: &str) -> (r: (Vec<Json>, Vec<Json>, Vec<Json>))
    ensures
        items_view(r.0@) == dashscope_content(strings_view(image_uris@), prompt@),
        items_view(r.1@) == openai_content(strings_view(image_uris@), prompt@),
        items_view(r.2@) == gemini_content(strings_view(image_uris@), prompt@),
{
    let ghost uris = strings_view(image_uris@);
    let mut ds: Vec<Json> = Vec::new();
    let mut oa: Vec<Json> = Vec::new();
    let mut gm: Vec<Json> = Vec::new();
    let mut i: usize = 0;
    assert(items_view(ds@) =~= uris.take(0).map_values(|u: Seq<char>| image_part(u)));
    assert(items_view(oa@) =~= uris.take(0).map_values(|u: Seq<char>| openai_image_part(u)));
    assert(uris.take(0) =~= Seq::<Seq<char>>::empty());
    while i < image_uris.len()
        invariant
            i <= image_uris@.len(),
            uris == strings_view(image_uris@),
            items_view(ds@) == uris.take(i as int).map_values(|u: Seq<char>| image_part(u)),
            items_view(oa@) == uris.take(i as int).map_values(|u: Seq<char>| openai_image_part(u)),
            items_view(gm@) == gemini_image_parts(uris.take(i as int)),
        decreases image_uris.len() - i,
    {
        let uri = &image_uris[i];
        assert(uris.take(i + 1).drop_last() =~= uris.take(i as int));
        assert(uris.take(i + 1).last() == uri@);
        let d = object1("image", json_str(uri.as_str()));
        proof {
            lemma_items_push(ds@, d);
        }
        ds.push(d);
        assert(uris.take(i + 1).map_values(|u: Seq<char>| image_part(u)) =~= uris.take(i as int).map_values(|u: Seq<char>| image_part(u)).push(image_part(uri@)));
        let inner = object1("url", json_str(uri.as_str()));
        let o = object2("type", json_str("image_url"), "image_url", inner);
        proof {
            lemma_items_push(oa@, o);
        }
        oa.push(o);
        assert(uris.take(i + 1).map_values(|u: Seq<char>| openai_image_part(u)) =~= uris.take(i as int).map_values(|u: Seq<char>| openai_image_part(u)).push(openai_image_part(uri@)));
        let ghost gm_before = items_view(gm@);
        match parse_data_uri(uri.as_str()) {
            Some((mime, data)) => {
                let inline = object2("mimeType", Json::String(mime), "data", Json::String(data));
                let g = object1("inlineData", inline);
                proof {
                    lemma_items_push(gm@, g);
                }
                gm.push(g);
            },
            None => {},
        }
        assert(items_view(gm@) =~= gemini_image_parts(uris.take(i + 1)));
        i = i + 1;
    }
    assert(uris.take(image_uris@.len() as int) =~= uris);
    let t = object1("text", json_str(prompt));
    proof {
        lemma_items_push(ds@, t);
    }
    ds.push(t);
    let t2 = object2("type", json_str("text"), "text", json_str(prompt));
    proof {
        lemma_items_push(oa@, t2);
    }
    oa.push(t2);
    let t3 = object1("text", json_str(prompt));
    proof {
        lemma_items_push(gm@, t3);
    }
    gm.push(t3);
    (ds, oa, gm)
}

/// The body of an image-editing request: the model's template (else the
/// default one) rendered with the variables of [`img2img_vars`], where the
/// size defaults to `1280*1280` and `image_uris` are the images, in order.
pub fn img2img_request(
    resolved_name: &str,
    prompt: &str,
    image_uris: &Vec<String>,
    mc: &ModelConfig,
    params: &GenerationParams,
) -> (r: Result<Json, AppError>)
    ensures
        request_outcome(
            r,
            render(
                template_or(mc@.request_template, img2img_template()),
                img2img_vars(
                    resolved_name@,
                    prompt@,
                    mc.supports_size,
                    size_or(opt_view(params.size), "1280*1280"@),
                    strings_view(image_uris@),
                ),
            ),
        ),
{
    proof {
        reveal_strlit("model");
        reveal_strlit("prompt");
        reveal_strlit("size");
        reveal_strlit("content");
        reveal_strlit("openai_content");
        reveal_strlit("gemini_parts");
    }
    assert("model"@.len() == 5 && "prompt"@.len() == 6 && "size"@.len() == 4);
    assert("content"@.len() == 7 && "openai_content"@.len() == 14 && "gemini_parts"@.len() == 12);
    let (ds, oa, gm) = img2img_content(image_uris, prompt);
    let ghost size = size_or(opt_view(params.size), "1280*1280"@);
    let mut vars = TemplateVars::new();
    vars.insert("model", json_str(resolved_name));
    assert(vars@ =~= seq![("model"@, JsonValue::Str(resolved_name@))]);
    vars.insert("prompt", json_str(prompt));
    assert(vars@ =~= seq![("model"@, JsonValue::Str(resolved_name@)), ("prompt"@, JsonValue::Str(prompt@))]);
    if mc.supports_size {
        let size_text = text_or(&params.size, "1280*1280");
        vars.insert("size", Json::String(size_text));
    }
    let ghost base = vars@;
    assert(base =~= text2img_vars(resolved_name@, prompt@, mc.supports_size, size));
    vars.insert("content", Json::Array(ds));
    vars.insert("openai_content", Json::Array(oa));
    vars.insert("gemini_parts", Json::Array(gm));
    assert(vars@ =~= img2img_vars(
        resolved_name@,
        prompt@,
        mc.supports_size,
        size,
        strings_view(image_uris@),
    ));
    render_body(mc, default_img2img_template(), &vars)
}

// ── Reading responses ──

/// The images of an image-editing response: those at the response path,
/// or, where there are none, the response is read as URLs and its path
/// names `choices`, those at `output.results[*].url`.
pub open spec fn edit_images(resp: JsonValue, mc: ModelConfigSpec, name: Seq<char>) -> Seq<Seq<char>> {
    let first = response_images(resp, mc, name);
    if first.len() == 0 && mc.response_format == ResponseFormat::Url && has_infix(
        response_path(mc, name),
        "choices"@,
    ) {
        extracted_strings(resp, "output.results[*].url"@)
    } else {
        first
    }
}

/// The images of an image-editing response (see [`edit_images`]); an API
/// error where there are none.
pub fn edit_image_urls(resp: &Json, mc: &ModelConfig, model_name: &str) -> (r: Result<Vec<String>, AppError>)
    ensures
        match r {
            Ok(urls) => strings_view(urls@) == edit_images(resp@, mc@, model_name@) && urls@.len() > 0,
            Err(e) => edit_images(resp@, mc@, model_name@).len() == 0 && e is Api && error_detail(e)
                == "No images returned from edit API"@,
        },
{
    let mut image_urls = extract_images(resp, mc, model_name);
    if image_urls.len() == 0 && mc.response_format == ResponseFormat::Url {
        let response_path = default_response_path(mc, model_name);
        if str_contains(response_path.as_str(), "choices") {
            image_urls = extract_strings(resp, "output.results[*].url");
        }
    }
    if image_urls.len() == 0 {
        let mut m = String::new();
        append_str(&mut m, "No images returned from edit API");
        return Err(AppError::Api(m));
    }
    Ok(image_urls)
}

/// The text that `{:?}` gives for a list of strings, such as `["a", "b"]`.
pub uninterp spec fn debug_list_text(items: Seq<Seq<char>>) -> Seq<char>;

/// Formats a list of strings with std's `Debug` (`format!("{:?}", items)`):
/// square brackets around the quoted, escaped strings, separated by `", "`.
/// The contract names that text and does not spell out the escaping.
#[verifier::external_body]
fn debug_list(items: &Vec<String>) -> (s: String)
    ensures
        s@ == debug_list_text(strings_view(items@)),
{
    format!("{:?}", items)
}

/// The member names of an object; none for other values.
pub open spec fn object_keys(v: JsonValue) -> Seq<Seq<char>> {
    match v {
        JsonValue::Object(members) => members.map_values(|m: (Seq<char>, JsonValue)| m.0),
        _ => Seq::empty(),
    }
}

/// The member names of an object (none for other values).
pub fn response_keys(resp: &Json) -> (keys: Vec<String>)
    ensures
        strings_view(keys@) == object_keys(resp@),
{
    let mut keys: Vec<String> = Vec::new();
    match resp {
        Json::Object(members) => {
            proof {
                crate::json::lemma_members_view(members@);
            }
            let mut i: usize = 0;
            while i < members.len()
                invariant
                    i <= members@.len(),
                    members_view(members@).len() == members@.len(),
                    forall|t: int| 0 <= t < members@.len() ==> #[trigger] members_view(members@)[t] == (members@[t].0@, json_view(members@[t].1)),
                    keys@.len() == i,
                    forall|t: int| 0 <= t < i ==> #[trigger] keys@[t]@ == members@[t].0@,
                decreases members.len() - i,
            {
                keys.push(members[i].0.clone());
                i = i + 1;
            }
            assert(strings_view(keys@) =~= object_keys(resp@));
        },
        _ => {
            assert(strings_view(keys@) =~= object_keys(resp@));
        },
    }
    keys
}

/// The images of a synchronous generation response; where there are none,
/// an API error that names the response's top-level keys.
pub fn sync_image_urls(resp: &Json, mc: &ModelConfig, model_name: &str) -> (r: Result<Vec<String>, AppError>)
    ensures
        match r {
            Ok(urls) => strings_view(urls@) == response_images(resp@, mc@, model_name@) && urls@.len() > 0,
            Err(e) => response_images(resp@, mc@, model_name@).len() == 0 && e is Api && error_detail(e)
                == "No images returned from API response. Check response_image_path configuration. Response keys: "@
                + debug_list_text(object_keys(resp@)),
        },
{
    let image_urls = extract_images(resp, mc, model_name);
    if image_urls.len() == 0 {
        let keys = response_keys(resp);
        let mut m = String::new();
        append_str(
            &mut m,
            "No images returned from API response. Check response_image_path configuration. Response keys: ",
        );
        let listed = debug_list(&keys);
        append_str(&mut m, listed.as_str());
        return Err(AppError::Api(m));
    }
    Ok(image_urls)
}

/// What a text-to-image generation gives from the final response: the task
/// id (the response's for the async-poll mode, `sync` otherwise) and the
/// images; in either mode, where the response holds no image, the API error
/// of [`sync_image_urls`], which names the response's top-level keys.
pub fn generation_result(resp: &Json, mc: &ModelConfig, model_name: &str, mode: ApiMode) -> (r: Result<
    (String, Vec<String>),
    AppError,
>)
    ensures
        match r {
            Ok((t, urls)) => strings_view(urls@) == response_images(resp@, mc@, model_name@)
                && urls@.len() > 0 && t@ == (if mode == ApiMode::AsyncPoll {
                response_task_id(resp@)
            } else {
                "sync"@
            }),
            Err(e) => response_images(resp@, mc@, model_name@).len() == 0 && e is Api
                && error_detail(e)
                == "No images returned from API response. Check response_image_path configuration. Response keys: "@
                + debug_list_text(object_keys(resp@)),
        },
{
    let urls = match sync_image_urls(resp, mc, model_name) {
        Ok(urls) => urls,
        Err(e) => return Err(e),
    };
    let task_id = match mode {
        ApiMode::AsyncPoll => task_id_of(resp),
        ApiMode::Sync => {
            let mut t = String::new();
            append_str(&mut t, "sync");
            t
        },
    };
    Ok((task_id, urls))
}

/// The task id of an async response: the string at `output.task_id`, else `"unknown"`.
pub open spec fn response_task_id(resp: JsonValue) -> Seq<char> {
    match child(resp, "output"@) {
        Some(o) => match child(o, "task_id"@) {
            Some(JsonValue::Str(t)) => t,
            _ => "unknown"@,
        },
        None => "unknown"@,
    }
}

/// The task id of an async response (see [`response_task_id`]).
pub fn task_id_of(resp: &Json) -> (t: String)
    ensures
        t@ == response_task_id(resp@),
{
    let output_key = chars_of("output");
    let task_key = chars_of("task_id");
    let mut t = String::new();
    let found = match resp {
        Json::Object(members) => match member_get(members, &output_key) {
            Some(Json::Object(inner)) => match member_get(inner, &task_key) {
                Some(Json::String(id)) => Some(id.clone()),
                _ => None,
            },
            _ => None,
        },
        _ => None,
    };
    match found {
        Some(id) => id,
        None => {
            append_str(&mut t, "unknown");
            t
        },
    }
}

/// The progress event for a task status: `Submitted` for `"SUBMITTED"`,
/// `Polling` with the status otherwise.
pub fn progress_event(task_id: &str, status: &str) -> (ev: GenerationEvent)
    ensures
        status@ == "SUBMITTED"@ ==> (ev matches GenerationEvent::Submitted { task_id: t } && t@
            == task_id@),
        status@ != "SUBMITTED"@ ==> (ev matches GenerationEvent::Polling { task_id: t, status: st }
            && t@ == task_id@ && st@ == status@),
{
    let mut t = String::new();
    append_str(&mut t, task_id);
    if same_text(status, "SUBMITTED") {
        GenerationEvent::Submitted { task_id: t }
    } else {
        let mut st = String::new();
        append_str(&mut st, status);
        GenerationEvent::Polling { task_id: t, status: st }
    }
}

/// The event reporting a failed generation: no task id, the error's message.
pub fn failure_event(e: &AppError) -> (ev: GenerationEvent)
    ensures
        ev matches GenerationEvent::Failed { task_id: t, error: m } && t@.len() == 0 && m@
            == error_message(*e),
{
    GenerationEvent::Failed { task_id: String::new(), error: e.message() }
}

// ── Inputs ──

/// Checks the inputs of an image edit: at least one image, and a prompt
/// that is not blank.
pub fn validate_edit_inputs(image_paths: &Vec<String>, prompt: &str) -> (r: Result<(), AppError>)
    ensures
        image_paths@.len() == 0 ==> (r matches Err(e) && e is Validation && error_detail(e)
            == "At least one image is required"@),
        image_paths@.len() > 0 && is_blank(prompt@) ==> (r matches Err(e) && e is Validation
            && error_detail(e) == "Prompt text is required"@),
        image_paths@.len() > 0 && !is_blank(prompt@) ==> r is Ok,
{
    if image_paths.len() == 0 {
        let mut m = String::new();
        append_str(&mut m, "At least one image is required");
        return Err(AppError::Validation(m));
    }
    if blank(prompt) {
        let mut m = String::new();
        append_str(&mut m, "Prompt text is required");
        return Err(AppError::Validation(m));
    }
    Ok(())
}

/// An image given by URL (its path starts with `http`) is sent as is;
/// any other is read and sent as a data URI.
pub fn is_remote_image(path: &str) -> (b: bool)
    ensures
        b == has_prefix(path@, "http"@),
{
    crate::text::str_starts_with(path, "http")
}

/// The error for an image file whose metadata cannot be read.
pub fn unreadable_image(path: &str, detail: &str) -> (e: AppError)
    ensures
        e is Io,
        error_detail(e) == "Cannot read image file "@ + path@ + ": "@ + detail@,
{
    let mut m = String::new();
    append_str(&mut m, "Cannot read image file ");
    append_str(&mut m, path);
    append_str(&mut m, ": ");
    append_str(&mut m, detail);
    AppError::Io(m)
}

/// The error for an image file that cannot be read for encoding.
pub fn image_read_failed(path: &str, detail: &str) -> (e: AppError)
    ensures
        e is Io,
        error_detail(e) == "Failed to read image file '"@ + path@ + "': "@ + detail@,
{
    let mut m = String::new();
    append_str(&mut m, "Failed to read image file '");
    append_str(&mut m, path);
    append_str(&mut m, "': ");
    append_str(&mut m, detail);
    AppError::Io(m)
}

// ── Saving images ──

/// The file extension for a clipboard image of a MIME type.
pub open spec fn clipboard_ext(mime: Seq<char>) -> Seq<char> {
    if mime == "image/png"@ {
        "png"@
    } else if mime == "image/jpeg"@ {
        "jpg"@
    } else if mime == "image/webp"@ {
        "webp"@
    } else if mime == "image/gif"@ {
        "gif"@
    } else {
        "png"@
    }
}

/// The file extension for a clipboard image (see [`clipboard_ext`]).
pub fn clipboard_extension(mime_type: &str) -> (e: &'static str)
    ensures
        e@ == clipboard_ext(mime_type@),
{
    if same_text(mime_type, "image/png") {
        "png"
    } else if same_text(mime_type, "image/jpeg") {
        "jpg"
    } else if same_text(mime_type, "image/webp") {
        "webp"
    } else if same_text(mime_type, "image/gif") {
        "gif"
    } else {
        "png"
    }
}

/// Where an image to save comes from.
#[derive(Debug)]
pub enum SaveSource {
    /// Downloaded from a remote URL.
    Url(String),
    /// Copied from a local file.
    Path(String),
}

/// The source of an image to save: its URL where one is given, else its
/// local path; a validation error where neither is given.
pub fn save_source(source_url: Option<String>, source_path: Option<String>) -> (r: Result<SaveSource, AppError>)
    ensures
        match source_url {
            Some(u) => r matches Ok(SaveSource::Url(x)) && x == u,
            None => match source_path {
                Some(p) => r matches Ok(SaveSource::Path(x)) && x == p,
                None => r matches Err(e) && e is Validation && error_detail(e)
                    == "Either source_url or source_path must be provided"@,
            },
        },
{
    match source_url {
        Some(u) => Ok(SaveSource::Url(u)),
        None => match source_path {
            Some(p) => Ok(SaveSource::Path(p)),
            None => {
                let mut m = String::new();
                append_str(&mut m, "Either source_url or source_path must be provided");
                Err(AppError::Validation(m))
            },
        },
    }
}

/// The error when the user cancels the save dialog.
pub fn save_cancelled() -> (e: AppError)
    ensures
        e is Io,
        error_detail(e) == "Save cancelled by user"@,
{
    let mut m = String::new();
    append_str(&mut m, "Save cancelled by user");
    AppError::Io(m)
}

// ── Laws ──

/// A data URI built from a MIME type that holds no `;` parses back into
/// that MIME type and that data.
pub proof fn law_data_uri_roundtrip(mime: Seq<char>, data: Seq<char>)
    requires
        forall|i: int| 0 <= i < mime.len() ==> mime[i] != ';',
    ensures
        data_uri_parts(data_uri(mime, data)) == Some((mime, data)),
{
    reveal_strlit("data:");
    reveal_strlit(";base64,");
    reveal_strlit("base64,");
    let uri = data_uri(mime, data);
    assert(uri.subrange(0, 5) =~= "data:"@);
    let rest = uri.skip(5);
    assert(rest =~= mime + ";base64,"@ + data);
    assert(rest[mime.len() as int] == ';');
    lemma_first_index(rest, ';', mime.len() as int);
    assert(rest.take(mime.len() as int) =~= mime);
    assert(rest.skip(mime.len() as int + 1) =~= "base64,"@ + data);
    assert(rest.skip(mime.len() as int + 1).subrange(0, 7) =~= "base64,"@);
    assert(rest.skip(mime.len() as int + 1).skip(7) =~= data);
}

/// The data URI of an encoded image file parses back into the file's MIME
/// type and its Base64 text: what image editing sends in the OpenAI format
/// it also sends, split, in the Gemini format.
pub proof fn law_encoded_image_parses(path: Seq<char>, bytes: Seq<u8>)
    ensures
        data_uri_parts(data_uri(image_mime(path), base64_standard(bytes))) == Some(
            (image_mime(path), base64_standard(bytes)),
        ),
{
    reveal_strlit("image/jpeg");
    reveal_strlit("image/png");
    reveal_strlit("image/webp");
    reveal_strlit("image/gif");
    reveal_strlit("image/bmp");
    reveal_strlit("image/tiff");
    let m = image_mime(path);
    assert forall|i: int| 0 <= i < m.len() implies m[i] != ';' by {}
    law_data_uri_roundtrip(m, base64_standard(bytes));
}

/// The encoding of a concatenation is the concatenation of the encodings.
proof fn lemma_encode_concat(a: Seq<char>, b: Seq<char>)
    ensures
        encode_utf8(a + b) == encode_utf8(a) + encode_utf8(b),
    decreases a.len(),
{
    if a.len() == 0 {
        assert(a + b =~= b);
    } else {
        assert((a + b).drop_first() =~= a.drop_first() + b);
        assert((a + b)[0] == a[0]);
        lemma_encode_concat(a.drop_first(), b);
    }
}

/// The decimal numeral of `n` is made of ASCII digits, at most `n / 10 + 1` of them.
proof fn lemma_decimal(n: nat)
    ensures
        is_ascii_chars(decimal(n)),
        decimal(n).len() <= n / 10 + 1,
    decreases n,
{
    if n >= 10 {
        lemma_decimal(n / 10);
        assert(decimal(n) == decimal(n / 10).push(crate::text::digit_char(n % 10)));
    }
}

/// The shortened form of a string that looks like Base64 data holds a
/// space, and is not longer in bytes than the string.
proof fn lemma_shortened(s: Seq<char>)
    requires
        looks_like_base64(s),
        is_char_boundary(encode_utf8(s), 50),
    ensures
        has_infix(shortened(s), seq![' ']),
        byte_len(shortened(s)) <= byte_len(s),
{
    reveal_strlit("...[truncated ");
    reveal_strlit(" chars]");
    let bytes = encode_utf8(s);
    let head_bytes = bytes.subrange(0, 50);
    encode_utf8_valid_utf8(s);
    valid_utf8_split(bytes, 50);
    decode_utf8_encode_utf8(head_bytes);
    let head = decode_utf8(head_bytes);
    let k = (byte_len(s) - 50) as nat;
    let mid = "...[truncated "@;
    let digits = decimal(k);
    let tail = " chars]"@;
    lemma_decimal(k);
    assert(is_ascii_chars(mid));
    assert(is_ascii_chars(tail));
    is_ascii_chars_encode_utf8(mid);
    is_ascii_chars_encode_utf8(digits);
    is_ascii_chars_encode_utf8(tail);
    let t = shortened(s);
    assert(t == head + mid + digits + tail);
    lemma_encode_concat(head, mid);
    lemma_encode_concat(head + mid, digits);
    lemma_encode_concat(head + mid + digits, tail);
    assert(byte_len(t) == 50 + 14 + digits.len() + 7);
    assert(crate::text::occurs_at(t, seq![' '], head.len() as int + 13)) by {
        assert(t[head.len() as int + 13] == ' ');
        assert(t.subrange(head.len() as int + 13, head.len() as int + 14) =~= seq![' ']);
    }
}

/// Shortening keeps what may be shortened, and a second pass changes
/// nothing: a shortened string holds a space, so it no longer looks like
/// Base64 data.
pub proof fn law_truncate_idempotent(v: JsonValue)
    requires
        cuttable(v),
    ensures
        cuttable(truncated(v)),
        truncated(truncated(v)) == truncated(v),
    decreases v, 0int,
{
    match v {
        JsonValue::Str(s) => {
            if looks_like_base64(s) {
                lemma_shortened(s);
            }
        },
        JsonValue::Array(items) => {
            lemma_truncate_items(items);
        },
        JsonValue::Object(members) => {
            lemma_truncate_members(members);
        },
        _ => {},
    }
}

proof fn lemma_truncate_items(items: Seq<JsonValue>)
    requires
        cuttable_items(items),
    ensures
        cuttable_items(truncated_items(items)),
        truncated_items(truncated_items(items)) == truncated_items(items),
    decreases items, 1int,
{
    if items.len() > 0 {
        lemma_truncate_items(items.drop_last());
        law_truncate_idempotent(items.last());
        let t = truncated_items(items);
        assert(t.drop_last() == truncated_items(items.drop_last()));
        assert(t.last() == truncated(items.last()));
    }
}

proof fn lemma_truncate_members(members: Seq<(Seq<char>, JsonValue)>)
    requires
        cuttable_members(members),
    ensures
        cuttable_members(truncated_members(members)),
        truncated_members(truncated_members(members)) == truncated_members(members),
    decreases members, 1int,
{
    if members.len() > 0 {
        lemma_truncate_members(members.drop_last());
        law_truncate_idempotent(members.last().1);
        let t = truncated_members(members);
        assert(t.drop_last() == truncated_members(members.drop_last()));
        assert(t.last() == (members.last().0, truncated(members.last().1)));
    }
}

/// The body that the default text-to-image template renders to.
pub open spec fn text2img_body(name: Seq<char>, prompt: Seq<char>, supports_size: bool, size: Seq<char>) -> JsonValue {
    let tail = seq![("prompt_extend"@, JsonValue::Bool(true)), ("watermark"@, JsonValue::Bool(false))];
    JsonValue::Object(
        seq![
            ("model"@, JsonValue::Str(name)),
            ("input"@, JsonValue::Object(seq![("prompt"@, JsonValue::Str(prompt))])),
            (
                "parameters"@,
                JsonValue::Object(
                    if supports_size {
                        seq![("size"@, JsonValue::Str(size))] + tail
                    } else {
                        tail
                    },
                ),
            ),
        ],
    )
}

/// The default text-to-image template renders to the DashScope body:
/// model and prompt filled in, and the `size` parameter present exactly for
/// models that support it.
pub proof fn law_default_text2img_body(name: Seq<char>, prompt: Seq<char>, supports_size: bool, size: Seq<char>)
    ensures
        render(text2img_template(), text2img_vars(name, prompt, supports_size, size)) == Some(
            text2img_body(name, prompt, supports_size, size),
        ),
{
    reveal_strlit("model");
    reveal_strlit("prompt");
    reveal_strlit("size");
    reveal_strlit("{model}");
    reveal_strlit("{prompt}");
    reveal_strlit("{size}");
    let vars = text2img_vars(name, prompt, supports_size, size);
    assert("{model}"@ =~= brace("model"@));
    assert("{prompt}"@ =~= brace("prompt"@));
    assert("{size}"@ =~= brace("size"@));
    lemma_whole_placeholder("model"@);
    lemma_whole_placeholder("prompt"@);
    lemma_whole_placeholder("size"@);
    assert("model"@.len() == 5 && "prompt"@.len() == 6 && "size"@.len() == 4);
    assert(lookup(vars, "model"@) == Some(JsonValue::Str(name)));
    assert(lookup(vars.drop_first(), "prompt"@) == Some(JsonValue::Str(prompt)));
    assert(lookup(vars, "prompt"@) == Some(JsonValue::Str(prompt)));
    if supports_size {
        assert(lookup(vars.drop_first().drop_first(), "size"@) == Some(JsonValue::Str(size)));
        assert(lookup(vars.drop_first(), "size"@) == Some(JsonValue::Str(size)));
        assert(lookup(vars, "size"@) == Some(JsonValue::Str(size)));
    } else {
        assert(lookup(vars.drop_first().drop_first(), "size"@) == None::<JsonValue>);
        assert(lookup(vars.drop_first(), "size"@) == None::<JsonValue>);
        assert(lookup(vars, "size"@) == None::<JsonValue>);
    }
    let model_m = ("model"@, JsonValue::Str("{model}"@));
    let prompt_m = ("prompt"@, JsonValue::Str("{prompt}"@));
    let input = JsonValue::Object(seq![prompt_m]);
    let size_m = ("size"@, JsonValue::Str("{size}"@));
    let ext_m = ("prompt_extend"@, JsonValue::Bool(true));
    let wm_m = ("watermark"@, JsonValue::Bool(false));
    let params = JsonValue::Object(seq![size_m, ext_m, wm_m]);
    let tail = seq![ext_m, wm_m];
    assert(render(JsonValue::Str("{model}"@), vars) == Some(JsonValue::Str(name)));
    assert(render(JsonValue::Str("{prompt}"@), vars) == Some(JsonValue::Str(prompt)));
    if supports_size {
        assert(render(JsonValue::Str("{size}"@), vars) == Some(JsonValue::Str(size)));
    } else {
        assert(render(JsonValue::Str("{size}"@), vars) == None::<JsonValue>);
    }
    assert(seq![prompt_m].last() == prompt_m);
    assert(seq![size_m].last() == size_m);
    assert(seq![model_m].last() == model_m);
    let none = Seq::<(Seq<char>, JsonValue)>::empty();
    assert(render_members(none, vars) == none);
    // input
    assert(seq![prompt_m].drop_last() =~= none);
    assert(render_members(seq![prompt_m], vars) =~= seq![("prompt"@, JsonValue::Str(prompt))]);
    // parameters
    assert(seq![size_m, ext_m, wm_m].drop_last() =~= seq![size_m, ext_m]);
    assert(seq![size_m, ext_m].drop_last() =~= seq![size_m]);
    assert(seq![size_m].drop_last() =~= Seq::<(Seq<char>, JsonValue)>::empty());
    let rp = render_members(seq![size_m, ext_m, wm_m], vars);
    assert(seq![size_m, ext_m].last() == ext_m);
    assert(seq![size_m, ext_m, wm_m].last() == wm_m);
    assert(render(ext_m.1, vars) == Some(ext_m.1));
    assert(render(wm_m.1, vars) == Some(wm_m.1));
    if supports_size {
        assert(render_members(seq![size_m], vars) =~= seq![("size"@, JsonValue::Str(size))]);
        assert(render_members(seq![size_m, ext_m], vars) =~= seq![("size"@, JsonValue::Str(size)), ext_m]);
        assert(rp =~= seq![("size"@, JsonValue::Str(size))] + tail);
    } else {
        assert(render_members(seq![size_m], vars) =~= none);
        assert(render_members(seq![size_m, ext_m], vars) =~= seq![ext_m]);
        assert(rp =~= tail);
    }
    // top
    let top = seq![model_m, ("input"@, input), ("parameters"@, params)];
    assert(top.drop_last() =~= seq![model_m, ("input"@, input)]);
    assert(seq![model_m, ("input"@, input)].drop_last() =~= seq![model_m]);
    assert(seq![model_m].drop_last() =~= Seq::<(Seq<char>, JsonValue)>::empty());
    assert(render_members(seq![model_m], vars) =~= seq![("model"@, JsonValue::Str(name))]);
    assert(text2img_template() == JsonValue::Object(top));
    assert(top.last() == ("parameters"@, params));
    assert(seq![model_m, ("input"@, input)].last() == ("input"@, input));
    assert(render(input, vars) == Some(JsonValue::Object(seq![("prompt"@, JsonValue::Str(prompt))])));
    assert(render(params, vars) == Some(JsonValue::Object(rp)));
    assert(render_members(seq![model_m, ("input"@, input)], vars) =~= seq![
        ("model"@, JsonValue::Str(name)),
        ("input"@, JsonValue::Object(seq![("prompt"@, JsonValue::Str(prompt))])),
    ]);
    assert(render_members(top, vars) =~= seq![
        ("model"@, JsonValue::Str(name)),
        ("input"@, JsonValue::Object(seq![("prompt"@, JsonValue::Str(prompt))])),
        ("parameters"@, JsonValue::Object(rp)),
    ]);
}

/// A model configured as older configuration files do: only its URL, every
/// other field at its default.
pub open spec fn url_only_model(url: Seq<char>) -> ModelConfigSpec {
    ModelConfigSpec {
        url,
        service_type: None,
        mode: ApiMode::Sync,
        request_template: None,
        response_image_path: None,
        response_format: ResponseFormat::Url,
        headers: None,
        async_poll: None,
        supports_size: false,
    }
}

/// A configuration file of the older format, where a model has only a URL,
/// keeps working as before: the model is checked on its URL alone; it is
/// called as DashScope called it (text-to-image and translation submit a task
/// and poll it every 3 seconds for up to 180, image editing answers at once);
/// its request is built from the DashScope default template; and its images
/// are read where the DashScope endpoints put them.
pub proof fn law_url_only_models_keep_dashscope_behaviour(url: Seq<char>, name: Seq<char>)
    ensures
        crate::services::config_loader::model_problem(name, url_only_model(url))
            == crate::services::config_loader::url_problem(name, url),
        generation_mode(url_only_model(url), name) == (if inferred_service_type(name)
            == ServiceType::Img2img {
            (ApiMode::Sync, None::<AsyncPollSpec>)
        } else {
            (ApiMode::AsyncPoll, Some(dashscope_poll()))
        }),
        crate::commands::translation::translation_mode(url_only_model(url), name) == (if inferred_service_type(name)
            == ServiceType::Translate {
            (ApiMode::AsyncPoll, Some(dashscope_poll()))
        } else {
            (ApiMode::Sync, None::<AsyncPollSpec>)
        }),
        dashscope_poll().poll_interval_secs == 3 && dashscope_poll().timeout_secs == 180,
        template_or(url_only_model(url).request_template, text2img_template()) == text2img_template(),
        template_or(url_only_model(url).request_template, img2img_template()) == img2img_template(),
        template_or(url_only_model(url).request_template, crate::services::template_engine::translate_template())
            == crate::services::template_engine::translate_template(),
        response_path(url_only_model(url), name) == (if inferred_service_type(name) == ServiceType::Img2img {
            "output.choices[*].message.content[*].image"@
        } else {
            "output.results[*].url"@
        }),
        crate::commands::translation::translation_path(url_only_model(url)) == "output.results[*].url"@,
{
}

/// The default place of a response's images follows the configured service
/// type, whatever the model's name: with no configured path, an image-editing
/// model reads `output.choices[*].message.content[*].image` and any other
/// configured type reads `output.results[*].url`; only a model without a
/// configured type falls back on its name. A configured path is always used
/// as it is.
pub proof fn law_response_path_follows_service_type(mc: ModelConfigSpec, name: Seq<char>)
    ensures
        mc.response_image_path matches Some(p) ==> response_path(mc, name) == p,
        mc.response_image_path is None && mc.service_type == Some(ServiceType::Img2img) ==> response_path(mc, name)
            == "output.choices[*].message.content[*].image"@,
        mc.response_image_path is None && (mc.service_type == Some(ServiceType::Text2img)
            || mc.service_type == Some(ServiceType::Translate)) ==> response_path(mc, name)
            == "output.results[*].url"@,
        mc.response_image_path is None && mc.service_type is None ==> response_path(mc, name) == (
        if has_infix(name, "edit"@) {
            "output.choices[*].message.content[*].image"@
        } else {
            "output.results[*].url"@
        }),
{
    crate::services::template_engine::law_inferred_service_type(name, Seq::empty(), Seq::empty());
}

/// The variables of a text-to-image or image-editing request: `model` is the
/// model's name, `prompt` the prompt, and `size` is the size handed in,
/// present exactly when the model supports sizes. The size handed in is the
/// requested one where one was requested, else the default.
pub proof fn law_request_variables(
    name: Seq<char>,
    prompt: Seq<char>,
    supports_size: bool,
    size: Seq<char>,
    uris: Seq<Seq<char>>,
    requested: Option<Seq<char>>,
    default: Seq<char>,
)
    ensures
        lookup(text2img_vars(name, prompt, supports_size, size), "model"@) == Some(JsonValue::Str(name)),
        lookup(text2img_vars(name, prompt, supports_size, size), "prompt"@) == Some(
            JsonValue::Str(prompt),
        ),
        lookup(text2img_vars(name, prompt, supports_size, size), "size"@) == (if supports_size {
            Some(JsonValue::Str(size))
        } else {
            None
        }),
        lookup(img2img_vars(name, prompt, supports_size, size, uris), "model"@) == Some(
            JsonValue::Str(name),
        ),
        lookup(img2img_vars(name, prompt, supports_size, size, uris), "prompt"@) == Some(
            JsonValue::Str(prompt),
        ),
        lookup(img2img_vars(name, prompt, supports_size, size, uris), "size"@) == (if supports_size {
            Some(JsonValue::Str(size))
        } else {
            None
        }),
        requested matches Some(s) ==> size_or(requested, default) == s,
        requested is None ==> size_or(requested, default) == default,
{
    reveal_strlit("model");
    reveal_strlit("prompt");
    reveal_strlit("size");
    reveal_strlit("content");
    reveal_strlit("openai_content");
    reveal_strlit("gemini_parts");
    let t = text2img_vars(name, prompt, supports_size, size);
    let i = img2img_vars(name, prompt, supports_size, size, uris);
    assert("model"@.len() == 5 && "prompt"@.len() == 6 && "size"@.len() == 4);
    assert("content"@.len() == 7 && "openai_content"@.len() == 14 && "gemini_parts"@.len() == 12);
    let tail = seq![
        ("content"@, JsonValue::Array(dashscope_content(uris, prompt))),
        ("openai_content"@, JsonValue::Array(openai_content(uris, prompt))),
        ("gemini_parts"@, JsonValue::Array(gemini_content(uris, prompt))),
    ];
    assert(tail.drop_first().drop_first().drop_first() =~= Seq::<(Seq<char>, JsonValue)>::empty());
    assert(lookup(tail.drop_first().drop_first().drop_first(), "size"@) is None);
    assert(lookup(tail.drop_first().drop_first(), "size"@) is None);
    assert(lookup(tail.drop_first(), "size"@) is None);
    assert(lookup(tail, "size"@) is None);
    if supports_size {
        assert(t.drop_first().drop_first() =~= seq![("size"@, JsonValue::Str(size))]);
        assert(i.drop_first().drop_first() =~= seq![("size"@, JsonValue::Str(size))] + tail);
        assert(i.drop_first() =~= t.drop_first() + tail);
        assert(i =~= t + tail);
    } else {
        assert(t.drop_first().drop_first() =~= Seq::<(Seq<char>, JsonValue)>::empty());
        assert(lookup(t.drop_first().drop_first(), "size"@) is None);
        assert(i.drop_first().drop_first() =~= tail);
        assert(i.drop_first() =~= t.drop_first() + tail);
    }
    assert(i.drop_first() =~= t.drop_first() + tail);
    assert(i[0] == t[0]);
    assert(i.drop_first()[0] == t.drop_first()[0]);
    let want = if supports_size { Some(JsonValue::Str(size)) } else { None::<JsonValue> };
    assert(t[0] == ("model"@, JsonValue::Str(name)));
    assert(t.drop_first()[0] == ("prompt"@, JsonValue::Str(prompt)));
    assert(lookup(t.drop_first(), "prompt"@) == Some(JsonValue::Str(prompt)));
    assert(lookup(i.drop_first(), "prompt"@) == Some(JsonValue::Str(prompt)));
    if supports_size {
        assert(t.drop_first().drop_first()[0] == ("size"@, JsonValue::Str(size)));
        assert(i.drop_first().drop_first()[0] == ("size"@, JsonValue::Str(size)));
    }
    assert(lookup(t.drop_first().drop_first(), "size"@) == want);
    assert(lookup(i.drop_first().drop_first(), "size"@) == want);
    assert(lookup(t.drop_first(), "size"@) == want);
    assert(lookup(i.drop_first(), "size"@) == want);
}

} // verus!
