//! Image translation: language check, request body, calling mode and result
//! extraction.

use vstd::prelude::*;

use crate::commands::generation::{
    dashscope_poll, default_dashscope_poll_config, opt_poll, render_body, request_outcome,
    response_task_id, task_id_of, template_or,
};
use crate::error::{error_detail, AppError};
use crate::json::{Json, JsonValue};
use crate::models::config::{opt_view, ApiMode, AsyncPollConfig, AsyncPollSpec, ModelConfig, ModelConfigSpec, ServiceType};
use crate::services::template_engine::{
    default_translate_template, extract_strings, extracted_strings, infer_service_type,
    inferred_service_type, json_str, render, strings_view, translate_template, TemplateVars,
};
use crate::text::append_str;

verus! {

/// Checks that the source and target languages differ.
pub fn check_languages(source_lang: &str, target_lang: &str) -> (r: Result<(), AppError>)
    ensures
        source_lang@ == target_lang@ ==> (r matches Err(e) && e is Validation && error_detail(e)
            == "Source and target languages must be different"@),
        source_lang@ != target_lang@ ==> r is Ok,
{
    let a = crate::text::chars_of(source_lang);
    let b = crate::text::chars_of(target_lang);
    let same = a.len() == b.len() && crate::text::starts_with(&a, &b);
    assert(a@.subrange(0, b@.len() as int) =~= a@ || a@.len() != b@.len());
    if same {
        let mut m = String::new();
        append_str(&mut m, "Source and target languages must be different");
        return Err(AppError::Validation(m));
    }
    Ok(())
}

/// The text of the user message of a translation: `"{source} → {target}"`.
pub fn translation_text(source_lang: &str, target_lang: &str) -> (t: String)
    ensures
        t@ == source_lang@ + " → "@ + target_lang@,
{
    let mut t = String::new();
    append_str(&mut t, source_lang);
    append_str(&mut t, " → ");
    append_str(&mut t, target_lang);
    t
}

/// The variables of a translation request: `model`, `image_url`,
/// `source_lang` and `target_lang`.
pub open spec fn translate_vars(
    name: Seq<char>,
    image_url: Seq<char>,
    source_lang: Seq<char>,
    target_lang: Seq<char>,
) -> Seq<(Seq<char>, JsonValue)> {
    seq![
        ("model"@, JsonValue::Str(name)),
        ("image_url"@, JsonValue::Str(image_url)),
        ("source_lang"@, JsonValue::Str(source_lang)),
        ("target_lang"@, JsonValue::Str(target_lang)),
    ]
}

/// The body of a translation request: the model's template (else the
/// default one) rendered with the variables of [`translate_vars`].
pub fn translate_request(
    resolved_name: &str,
    image_url: &str,
    source_lang: &str,
    target_lang: &str,
    mc: &ModelConfig,
) -> (r: Result<Json, AppError>)
    ensures
        request_outcome(
            r,
            render(
                template_or(mc@.request_template, translate_template()),
                translate_vars(resolved_name@, image_url@, source_lang@, target_lang@),
            ),
        ),
{
    proof {
        reveal_strlit("model");
        reveal_strlit("image_url");
        reveal_strlit("source_lang");
        reveal_strlit("target_lang");
    }
    assert("model"@.len() == 5 && "image_url"@.len() == 9);
    assert("source_lang"@[0] == 's' && "target_lang"@[0] == 't');
    let mut vars = TemplateVars::new();
    vars.insert("model", json_str(resolved_name));
    assert(vars@ =~= seq![("model"@, JsonValue::Str(resolved_name@))]);
    vars.insert("image_url", json_str(image_url));
    assert(vars@ =~= seq![
        ("model"@, JsonValue::Str(resolved_name@)),
        ("image_url"@, JsonValue::Str(image_url@)),
    ]);
    vars.insert("source_lang", json_str(source_lang));
    assert(vars@ =~= seq![
        ("model"@, JsonValue::Str(resolved_name@)),
        ("image_url"@, JsonValue::Str(image_url@)),
        ("source_lang"@, JsonValue::Str(source_lang@)),
    ]);
    vars.insert("target_lang", json_str(target_lang));
    assert(vars@ =~= translate_vars(resolved_name@, image_url@, source_lang@, target_lang@));
    render_body(mc, default_translate_template(), &vars)
}

/// The path at which a translation response holds its images: the
/// configured one, else `output.results[*].url`, where the DashScope
/// endpoints put their results.
pub open spec fn translation_path(mc: ModelConfigSpec) -> Seq<char> {
    match mc.response_image_path {
        Some(p) => p,
        None => "output.results[*].url"@,
    }
}

/// The path at which a translation response holds its images (see [`translation_path`]).
pub fn translation_response_path(mc: &ModelConfig) -> (p: String)
    ensures
        p@ == translation_path(mc@),
{
    match &mc.response_image_path {
        Some(p) => p.clone(),
        None => {
            let mut p = String::new();
            append_str(&mut p, "output.results[*].url");
            p
        },
    }
}

/// The calling mode and poll configuration used for a model in translation:
/// as in generation, except that a sync model without service type and poll
/// configuration is upgraded to async_poll only when its name suggests
/// translation.
pub open spec fn translation_mode(mc: ModelConfigSpec, name: Seq<char>) -> (ApiMode, Option<AsyncPollSpec>) {
    match mc.mode {
        ApiMode::AsyncPoll => (
            ApiMode::AsyncPoll,
            Some(
                match mc.async_poll {
                    Some(p) => p,
                    None => dashscope_poll(),
                },
            ),
        ),
        ApiMode::Sync => if mc.service_type is None && mc.async_poll is None
            && inferred_service_type(name) == ServiceType::Translate {
            (ApiMode::AsyncPoll, Some(dashscope_poll()))
        } else {
            (ApiMode::Sync, None)
        },
    }
}

/// Resolve the effective API mode of a translation model (see [`translation_mode`]).
pub fn translation_mode_and_poll(mc: &ModelConfig, model_name: &str) -> (r: (ApiMode, Option<AsyncPollConfig>))
    ensures
        (r.0, opt_poll(r.1)) == translation_mode(mc@, model_name@),
{
    match mc.mode {
        ApiMode::AsyncPoll => {
            let poll = match &mc.async_poll {
                Some(p) => p.duplicate(),
                None => default_dashscope_poll_config(),
            };
            (ApiMode::AsyncPoll, Some(poll))
        },
        ApiMode::Sync => {
            if mc.service_type.is_none() && mc.async_poll.is_none() && infer_service_type(model_name)
                == ServiceType::Translate {
                (ApiMode::AsyncPoll, Some(default_dashscope_poll_config()))
            } else {
                (ApiMode::Sync, None)
            }
        },
    }
}

/// The translated images of a synchronous response; an API error where
/// there are none.
pub fn translation_urls(resp: &Json, mc: &ModelConfig) -> (r: Result<Vec<String>, AppError>)
    ensures
        match r {
            Ok(urls) => strings_view(urls@) == extracted_strings(resp@, translation_path(mc@))
                && urls@.len() > 0,
            Err(e) => extracted_strings(resp@, translation_path(mc@)).len() == 0 && e is Api
                && error_detail(e) == "No images returned from translation API"@,
        },
{
    let path = translation_response_path(mc);
    let urls = extract_strings(resp, path.as_str());
    if urls.len() == 0 {
        let mut m = String::new();
        append_str(&mut m, "No images returned from translation API");
        return Err(AppError::Api(m));
    }
    Ok(urls)
}

/// What a translation gives from the final response: the task id (the
/// response's for the async-poll mode, `sync` otherwise) and the translated
/// images; in either mode, where the response holds none, the API error of
/// [`translation_urls`].
pub fn translation_result(resp: &Json, mc: &ModelConfig, mode: ApiMode) -> (r: Result<
    (String, Vec<String>),
    AppError,
>)
    ensures
        match r {
            Ok((t, urls)) => strings_view(urls@) == extracted_strings(resp@, translation_path(mc@))
                && urls@.len() > 0 && t@ == (if mode == ApiMode::AsyncPoll {
                response_task_id(resp@)
            } else {
                "sync"@
            }),
            Err(e) => extracted_strings(resp@, translation_path(mc@)).len() == 0 && e is Api
                && error_detail(e) == "No images returned from translation API"@,
        },
{
    let urls = match translation_urls(resp, mc) {
        Ok(urls) => urls,
        Err(e) => return Err(e),
    };
    let task_id = match mode {
        ApiMode::AsyncPoll => task_id_of(resp),
        ApiMode::Sync => {
            let mut t = String::new();
            append_str(&mut t, "sync");
            t
        },
    };
    Ok((task_id, urls))
}

/// Whichever way a model is called, it polls exactly when it is called
/// asynchronously; a model that translation calls asynchronously is also
/// called asynchronously by generation.
pub proof fn law_mode_and_poll_agree(mc: ModelConfigSpec, name: Seq<char>)
    ensures
        (crate::commands::generation::generation_mode(mc, name).0 == ApiMode::AsyncPoll)
            == crate::commands::generation::generation_mode(mc, name).1 is Some,
        (translation_mode(mc, name).0 == ApiMode::AsyncPoll) == translation_mode(mc, name).1 is Some,
        translation_mode(mc, name).0 == ApiMode::AsyncPoll ==> crate::commands::generation::generation_mode(mc, name) == translation_mode(mc, name),
{
}

/// A model configured in the async-poll mode is submitted and polled, in
/// generation and in translation alike, with its own poll section where it
/// has one and DashScope's otherwise; it is never called synchronously. A
/// model configured as sync with a service type or a poll section is always
/// called synchronously.
pub proof fn law_configured_mode_is_kept(mc: ModelConfigSpec, name: Seq<char>)
    ensures
        mc.mode == ApiMode::AsyncPoll ==> translation_mode(mc, name) == (
            ApiMode::AsyncPoll,
            Some(
                match mc.async_poll {
                    Some(p) => p,
                    None => dashscope_poll(),
                },
            ),
        ),
        mc.mode == ApiMode::AsyncPoll ==> crate::commands::generation::generation_mode(mc, name)
            == translation_mode(mc, name),
        mc.mode == ApiMode::AsyncPoll && mc.async_poll is Some ==> translation_mode(mc, name) == (
            ApiMode::AsyncPoll,
            mc.async_poll,
        ),
        mc.mode == ApiMode::Sync && (mc.service_type is Some || mc.async_poll is Some) ==> (
        translation_mode(mc, name) == (ApiMode::Sync, None::<AsyncPollSpec>)
            && crate::commands::generation::generation_mode(mc, name) == (
            ApiMode::Sync,
            None::<AsyncPollSpec>,
        )),
{
}

} // verus!
