use qwen_imager::commands::generation::{
    clipboard_extension, edit_image_urls, extract_images, failure_event, image_read_failed,
    img2img_content, img2img_request, is_remote_image, parse_data_uri, progress_event,
    response_keys, save_cancelled, save_source, service_type_text, sync_image_urls, task_id_of,
    text2img_request, truncate_base64_in_json, unreadable_image, validate_edit_inputs, SaveSource,
};
use qwen_imager::commands::generation::generation_result;
use qwen_imager::commands::translation::{
    check_languages, translate_request, translation_mode_and_poll, translation_response_path,
    translation_result, translation_text, translation_urls,
};
use qwen_imager::error::AppError;
use qwen_imager::json::Json;
use qwen_imager::models::api::{GenerationEvent, GenerationParams};
use qwen_imager::models::config::{ApiMode, ModelConfig, ResponseFormat, ServiceType};

fn dump(j: &Json) -> String {
    match j {
        Json::Null => "null".to_string(),
        Json::Bool(b) => b.to_string(),
        Json::Number(n) => n.clone(),
        Json::String(s) => format!("{:?}", s),
        Json::Array(items) => {
            let parts: Vec<String> = items.iter().map(dump).collect();
            format!("[{}]", parts.join(","))
        }
        Json::Object(members) => {
            let parts: Vec<String> =
                members.iter().map(|(k, v)| format!("{:?}:{}", k, dump(v))).collect();
            format!("{{{}}}", parts.join(","))
        }
    }
}

fn st(text: &str) -> Json {
    Json::String(text.to_string())
}

fn ob(members: Vec<(&str, Json)>) -> Json {
    Json::Object(members.into_iter().map(|(k, v)| (k.to_string(), v)).collect())
}

fn plain_model() -> ModelConfig {
    ModelConfig {
        url: "https://x".to_string(),
        service_type: None,
        mode: ApiMode::Sync,
        request_template: None,
        response_image_path: None,
        response_format: ResponseFormat::Url,
        headers: None,
        async_poll: None,
        supports_size: false,
    }
}

fn params(size: Option<&str>) -> GenerationParams {
    let mut p = GenerationParams::default();
    p.size = size.map(|s| s.to_string());
    p
}

fn detail_of(e: &AppError) -> String {
    e.detail().clone()
}

#[test]
fn parse_data_uri_splits_mime_and_data() {
    assert_eq!(
        parse_data_uri("data:image/png;base64,iVBORw0KGgo="),
        Some(("image/png".to_string(), "iVBORw0KGgo=".to_string()))
    );
    assert_eq!(parse_data_uri("data:;base64,"), Some((String::new(), String::new())));
}

#[test]
fn parse_data_uri_rejects_other_shapes() {
    assert_eq!(parse_data_uri("https://a/b.png"), None);
    assert_eq!(parse_data_uri("data:image/png,abc"), None);
    assert_eq!(parse_data_uri("data:image/png;utf8,abc"), None);
    assert_eq!(parse_data_uri("DATA:image/png;base64,abc"), None);
}

#[test]
fn truncate_long_unspaced_strings() {
    let long = "A".repeat(120);
    let out = truncate_base64_in_json(&ob(vec![("data", st(&long)), ("text", st("short"))]));
    let expected = format!("{{\"data\":\"{}...[truncated 70 chars]\",\"text\":\"short\"}}", "A".repeat(50));
    assert_eq!(dump(&out), expected);
}

#[test]
fn truncate_keeps_boundary_and_spaced_strings() {
    let hundred = "B".repeat(100);
    let spaced = format!("{} {}", "C".repeat(80), "C".repeat(80));
    let doc = Json::Array(vec![st(&hundred), st(&spaced), Json::Number("1".to_string()), Json::Null]);
    let out = truncate_base64_in_json(&doc);
    assert_eq!(dump(&out), dump(&doc));
}

#[test]
fn truncate_is_idempotent() {
    let long = "Z".repeat(300);
    let doc = ob(vec![("a", Json::Array(vec![st(&long), ob(vec![("b", st(&long))])]))]);
    let once = truncate_base64_in_json(&doc);
    let twice = truncate_base64_in_json(&once);
    assert_eq!(dump(&once), dump(&twice));
    assert!(dump(&once).contains("...[truncated 250 chars]"));
}

#[test]
fn text2img_request_default_template_with_size() {
    let mut mc = plain_model();
    mc.supports_size = true;
    let body = text2img_request("qwen-image-plus", "a red fox", &mc, &params(None)).unwrap();
    assert_eq!(
        dump(&body),
        r#"{"model":"qwen-image-plus","input":{"prompt":"a red fox"},"parameters":{"size":"1024*1024","prompt_extend":true,"watermark":false}}"#
    );
    let body = text2img_request("qwen-image-plus", "a red fox", &mc, &params(Some("512*512"))).unwrap();
    assert!(dump(&body).contains(r#""size":"512*512""#));
}

#[test]
fn text2img_request_omits_size_when_unsupported() {
    let mc = plain_model();
    let body = text2img_request("m", "p", &mc, &params(Some("512*512"))).unwrap();
    assert_eq!(
        dump(&body),
        r#"{"model":"m","input":{"prompt":"p"},"parameters":{"prompt_extend":true,"watermark":false}}"#
    );
}

#[test]
fn text2img_request_custom_template() {
    let mut mc = plain_model();
    mc.request_template = Some(ob(vec![("prompt", st("Draw: {prompt}")), ("n", Json::Number("1".to_string()))]));
    let body = text2img_request("m", "a cat", &mc, &params(None)).unwrap();
    assert_eq!(dump(&body), r#"{"prompt":"Draw: a cat","n":1}"#);
}

#[test]
fn text2img_request_template_that_renders_to_nothing() {
    let mut mc = plain_model();
    mc.request_template = Some(st("{missing}"));
    let e = text2img_request("m", "p", &mc, &params(None)).err().unwrap();
    assert_eq!(e.kind(), "api");
    assert_eq!(detail_of(&e), "Failed to render request template");
}

#[test]
fn img2img_content_in_three_formats() {
    let uris = vec!["data:image/png;base64,QUJD".to_string(), "https://h/x.jpg".to_string()];
    let (dash, openai, gemini) = img2img_content(&uris, "make it blue");
    assert_eq!(
        dump(&Json::Array(dash)),
        r#"[{"image":"data:image/png;base64,QUJD"},{"image":"https://h/x.jpg"},{"text":"make it blue"}]"#
    );
    assert_eq!(
        dump(&Json::Array(openai)),
        r#"[{"type":"image_url","image_url":{"url":"data:image/png;base64,QUJD"}},{"type":"image_url","image_url":{"url":"https://h/x.jpg"}},{"type":"text","text":"make it blue"}]"#
    );
    assert_eq!(
        dump(&Json::Array(gemini)),
        r#"[{"inlineData":{"mimeType":"image/png","data":"QUJD"}},{"text":"make it blue"}]"#
    );
}

#[test]
fn img2img_request_default_template() {
    let mc = plain_model();
    let uris = vec!["https://h/x.png".to_string()];
    let body = img2img_request("qwen-image-edit", "blue", &uris, &mc, &params(None)).unwrap();
    assert_eq!(
        dump(&body),
        r#"{"model":"qwen-image-edit","input":{"messages":[{"role":"user","content":[{"image":"https://h/x.png"},{"text":"blue"}]}]},"parameters":{"prompt_extend":true,"watermark":false}}"#
    );
}

#[test]
fn img2img_request_size_default_and_openai_template() {
    let mut mc = plain_model();
    mc.supports_size = true;
    mc.request_template = Some(ob(vec![
        ("model", st("{model}")),
        ("messages", Json::Array(vec![ob(vec![("role", st("user")), ("content", st("{openai_content}"))])])),
        ("size", st("{size}")),
    ]));
    let uris = vec!["https://h/x.png".to_string()];
    let body = img2img_request("gpt", "hi", &uris, &mc, &params(None)).unwrap();
    assert_eq!(
        dump(&body),
        r#"{"model":"gpt","messages":[{"role":"user","content":[{"type":"image_url","image_url":{"url":"https://h/x.png"}},{"type":"text","text":"hi"}]}],"size":"1280*1280"}"#
    );
}

#[test]
fn translate_request_default_template() {
    let mc = plain_model();
    let body = translate_request("qwen-mt-image", "https://h/a.png", "en", "zh", &mc).unwrap();
    assert_eq!(
        dump(&body),
        r#"{"model":"qwen-mt-image","input":{"image_url":"https://h/a.png","source_lang":"en","target_lang":"zh"}}"#
    );
}

#[test]
fn translation_languages_and_text() {
    let e = check_languages("en", "en").err().unwrap();
    assert_eq!(e.kind(), "validation");
    assert_eq!(detail_of(&e), "Source and target languages must be different");
    assert!(check_languages("en", "zh").is_ok());
    assert_eq!(translation_text("en", "zh"), "en → zh");
}

#[test]
fn translation_mode_and_results() {
    let mc = plain_model();
    let (mode, poll) = translation_mode_and_poll(&mc, "qwen-mt-image");
    assert_eq!(mode, ApiMode::AsyncPoll);
    assert!(poll.is_some());
    assert_eq!(translation_response_path(&mc), "output.results[*].url");
    let resp = ob(vec![("output", ob(vec![("results", Json::Array(vec![ob(vec![("url", st("https://t/1.png"))])]))]))]);
    assert_eq!(translation_urls(&resp, &mc).unwrap(), vec!["https://t/1.png".to_string()]);
    assert!(translation_urls(&ob(vec![]), &mc).is_err());
}

fn results_response() -> Json {
    ob(vec![
        ("output", ob(vec![
            ("task_id", st("abc-123")),
            ("results", Json::Array(vec![ob(vec![("url", st("https://r/1.png"))])])),
        ])),
        ("request_id", st("req")),
    ])
}

#[test]
fn extract_images_url_and_base64() {
    let mc = plain_model();
    assert_eq!(extract_images(&results_response(), &mc, "qwen-image-plus"), vec!["https://r/1.png".to_string()]);
    let mut mc = plain_model();
    mc.response_format = ResponseFormat::Base64;
    mc.response_image_path = Some("candidates[*].inlineData".to_string());
    let resp = ob(vec![(
        "candidates",
        Json::Array(vec![ob(vec![("inlineData", ob(vec![("mimeType", st("image/png")), ("data", st("QUJD"))]))])]),
    )]);
    assert_eq!(extract_images(&resp, &mc, "gemini"), vec!["data:image/png;base64,QUJD".to_string()]);
}

#[test]
fn edit_images_fall_back_to_results() {
    let mc = plain_model();
    let urls = edit_image_urls(&results_response(), &mc, "qwen-image-edit").unwrap();
    assert_eq!(urls, vec!["https://r/1.png".to_string()]);
    let e = edit_image_urls(&ob(vec![]), &mc, "qwen-image-edit").err().unwrap();
    assert_eq!(e.kind(), "api");
    assert_eq!(detail_of(&e), "No images returned from edit API");
}

#[test]
fn edit_images_no_fallback_for_custom_path() {
    let mut mc = plain_model();
    mc.response_image_path = Some("data[*].url".to_string());
    assert!(edit_image_urls(&results_response(), &mc, "qwen-image-edit").is_err());
}

#[test]
fn sync_images_error_lists_response_keys() {
    let mc = plain_model();
    let resp = ob(vec![("output", ob(vec![])), ("request_id", st("r"))]);
    let e = sync_image_urls(&resp, &mc, "qwen-image-plus").err().unwrap();
    assert_eq!(e.kind(), "api");
    assert_eq!(
        detail_of(&e),
        r#"No images returned from API response. Check response_image_path configuration. Response keys: ["output", "request_id"]"#
    );
    assert_eq!(response_keys(&resp), vec!["output".to_string(), "request_id".to_string()]);
    assert!(response_keys(&Json::Null).is_empty());
    assert_eq!(sync_image_urls(&results_response(), &mc, "qwen-image-plus").unwrap().len(), 1);
}

#[test]
fn task_id_of_response() {
    assert_eq!(task_id_of(&results_response()), "abc-123");
    assert_eq!(task_id_of(&ob(vec![("output", ob(vec![]))])), "unknown");
    assert_eq!(task_id_of(&Json::Bool(true)), "unknown");
}

#[test]
fn progress_events_by_status() {
    match progress_event("t1", "SUBMITTED") {
        GenerationEvent::Submitted { task_id } => assert_eq!(task_id, "t1"),
        other => panic!("unexpected {:?}", other),
    }
    match progress_event("t1", "RUNNING") {
        GenerationEvent::Polling { task_id, status } => {
            assert_eq!(task_id, "t1");
            assert_eq!(status, "RUNNING");
        }
        other => panic!("unexpected {:?}", other),
    }
}

#[test]
fn failure_event_carries_message() {
    let e = AppError::Timeout("poll".to_string());
    match failure_event(&e) {
        GenerationEvent::Failed { task_id, error } => {
            assert_eq!(task_id, "");
            assert_eq!(error, "Request timed out: poll");
        }
        other => panic!("unexpected {:?}", other),
    }
}

#[test]
fn edit_inputs_are_checked() {
    let e = validate_edit_inputs(&vec![], "p").err().unwrap();
    assert_eq!(detail_of(&e), "At least one image is required");
    let e = validate_edit_inputs(&vec!["a.png".to_string()], " \t").err().unwrap();
    assert_eq!(e.kind(), "validation");
    assert_eq!(detail_of(&e), "Prompt text is required");
    assert!(validate_edit_inputs(&vec!["a.png".to_string()], "go").is_ok());
}

#[test]
fn image_source_helpers() {
    assert!(is_remote_image("https://x/a.png"));
    assert!(is_remote_image("http://x/a.png"));
    assert!(!is_remote_image("/tmp/a.png"));
    assert_eq!(detail_of(&unreadable_image("/a.png", "gone")), "Cannot read image file /a.png: gone");
    assert_eq!(detail_of(&image_read_failed("/a.png", "gone")), "Failed to read image file '/a.png': gone");
}

#[test]
fn clipboard_extensions() {
    assert_eq!(clipboard_extension("image/png"), "png");
    assert_eq!(clipboard_extension("image/jpeg"), "jpg");
    assert_eq!(clipboard_extension("image/webp"), "webp");
    assert_eq!(clipboard_extension("image/gif"), "gif");
    assert_eq!(clipboard_extension("image/bmp"), "png");
}

#[test]
fn save_sources() {
    match save_source(Some("https://u".to_string()), Some("/p".to_string())).unwrap() {
        SaveSource::Url(u) => assert_eq!(u, "https://u"),
        other => panic!("unexpected {:?}", other),
    }
    match save_source(None, Some("/p".to_string())).unwrap() {
        SaveSource::Path(p) => assert_eq!(p, "/p"),
        other => panic!("unexpected {:?}", other),
    }
    let e = save_source(None, None).err().unwrap();
    assert_eq!(e.kind(), "validation");
    assert_eq!(detail_of(&e), "Either source_url or source_path must be provided");
    assert_eq!(save_cancelled().message(), "IO error: Save cancelled by user");
}

#[test]
fn service_type_names() {
    assert_eq!(service_type_text(ServiceType::Text2img), "text2img");
    assert_eq!(service_type_text(ServiceType::Img2img), "img2img");
    assert_eq!(service_type_text(ServiceType::Translate), "translate");
}

#[test]
fn generation_result_in_both_modes() {
    let mc = plain_model();
    let (t, urls) = generation_result(&results_response(), &mc, "qwen-image-plus", ApiMode::AsyncPoll).unwrap();
    assert_eq!((t.as_str(), urls), ("abc-123", vec!["https://r/1.png".to_string()]));
    let (t, _) = generation_result(&results_response(), &mc, "qwen-image-plus", ApiMode::Sync).unwrap();
    assert_eq!(t, "sync");
    let empty = ob(vec![("output", ob(vec![("task_id", st("t")), ("task_status", st("SUCCEEDED"))]))]);
    for mode in [ApiMode::AsyncPoll, ApiMode::Sync] {
        let e = generation_result(&empty, &mc, "qwen-image-plus", mode).err().unwrap();
        assert_eq!(e.kind(), "api");
        assert_eq!(
            detail_of(&e),
            r#"No images returned from API response. Check response_image_path configuration. Response keys: ["output"]"#
        );
    }
}

#[test]
fn translation_result_in_both_modes() {
    let mc = plain_model();
    let (t, urls) = translation_result(&results_response(), &mc, ApiMode::AsyncPoll).unwrap();
    assert_eq!((t.as_str(), urls.len()), ("abc-123", 1));
    let (t, _) = translation_result(&results_response(), &mc, ApiMode::Sync).unwrap();
    assert_eq!(t, "sync");
    for mode in [ApiMode::AsyncPoll, ApiMode::Sync] {
        let e = translation_result(&ob(vec![]), &mc, mode).err().unwrap();
        assert_eq!(detail_of(&e), "No images returned from translation API");
    }
}
