use qwen_imager::json::Json;
use qwen_imager::models::config::ServiceType;
use qwen_imager::services::template_engine::{
    default_img2img_template, default_text2img_template, default_translate_template,
    extract_base64_images, extract_strings, infer_service_type, parse_path, render_template,
    Segment, TemplateVars,
};

fn compact(j: &Json) -> String {
    match j {
        Json::Null => "null".to_string(),
        Json::Bool(b) => b.to_string(),
        Json::Number(n) => n.clone(),
        Json::String(s) => format!("{:?}", s),
        Json::Array(items) => {
            let parts: Vec<String> = items.iter().map(compact).collect();
            format!("[{}]", parts.join(","))
        }
        Json::Object(members) => {
            let parts: Vec<String> =
                members.iter().map(|(k, v)| format!("{:?}:{}", k, compact(v))).collect();
            format!("{{{}}}", parts.join(","))
        }
    }
}

fn s(text: &str) -> Json {
    Json::String(text.to_string())
}

fn obj(members: Vec<(&str, Json)>) -> Json {
    Json::Object(members.into_iter().map(|(k, v)| (k.to_string(), v)).collect())
}

fn arr(items: Vec<Json>) -> Json {
    Json::Array(items)
}

#[test]
fn render_replaces_whole_placeholder_with_any_value() {
    let template = obj(vec![("content", s("{content}")), ("model", s("{model}"))]);
    let mut vars = TemplateVars::new();
    vars.insert("model", s("qwen-image-plus"));
    vars.insert("content", arr(vec![obj(vec![("text", s("hi"))])]));
    let out = render_template(&template, &vars).unwrap();
    assert_eq!(compact(&out), r#"{"content":[{"text":"hi"}],"model":"qwen-image-plus"}"#);
}

#[test]
fn render_omits_member_of_unset_variable() {
    let template = obj(vec![(
        "parameters",
        obj(vec![("size", s("{size}")), ("watermark", Json::Bool(false))]),
    )]);
    let vars = TemplateVars::new();
    let out = render_template(&template, &vars).unwrap();
    assert_eq!(compact(&out), r#"{"parameters":{"watermark":false}}"#);
}

#[test]
fn render_top_level_unset_placeholder_is_none() {
    let vars = TemplateVars::new();
    assert!(render_template(&s("{missing}"), &vars).is_none());
}

#[test]
fn render_substitutes_embedded_placeholders() {
    let mut vars = TemplateVars::new();
    vars.insert("name", s("World"));
    vars.insert("n", Json::Number("3".to_string()));
    let out = render_template(&s("Hello {name}! {n} {other}"), &vars).unwrap();
    assert_eq!(compact(&out), r#""Hello World! {n} {other}""#);
}

#[test]
fn render_drops_array_items_of_unset_variables() {
    let template = arr(vec![s("{a}"), Json::Number("1".to_string()), s("{b}"), Json::Null]);
    let mut vars = TemplateVars::new();
    vars.insert("a", Json::Bool(true));
    let out = render_template(&template, &vars).unwrap();
    assert_eq!(compact(&out), "[true,1,null]");
}

#[test]
fn template_vars_insert_replaces_existing_value() {
    let mut vars = TemplateVars::new();
    vars.insert("model", s("a"));
    vars.insert("prompt", s("p"));
    vars.insert("model", s("b"));
    assert_eq!(vars.len(), 2);
    let key: Vec<char> = "model".chars().collect();
    assert_eq!(compact(vars.get(&key).unwrap()), r#""b""#);
    let missing: Vec<char> = "size".chars().collect();
    assert!(vars.get(&missing).is_none());
}

#[test]
fn default_text2img_template_renders_dashscope_body() {
    let mut vars = TemplateVars::new();
    vars.insert("model", s("qwen-image-plus"));
    vars.insert("prompt", s("a cat"));
    vars.insert("size", s("1024*1024"));
    let out = render_template(&default_text2img_template(), &vars).unwrap();
    assert_eq!(
        compact(&out),
        r#"{"model":"qwen-image-plus","input":{"prompt":"a cat"},"parameters":{"size":"1024*1024","prompt_extend":true,"watermark":false}}"#
    );
}

#[test]
fn default_text2img_template_without_size() {
    let mut vars = TemplateVars::new();
    vars.insert("model", s("m"));
    vars.insert("prompt", s("p"));
    let out = render_template(&default_text2img_template(), &vars).unwrap();
    assert_eq!(
        compact(&out),
        r#"{"model":"m","input":{"prompt":"p"},"parameters":{"prompt_extend":true,"watermark":false}}"#
    );
}

#[test]
fn default_img2img_template_shape() {
    assert_eq!(
        compact(&default_img2img_template()),
        r#"{"model":"{model}","input":{"messages":[{"role":"user","content":"{content}"}]},"parameters":{"prompt_extend":true,"watermark":false}}"#
    );
}

#[test]
fn default_translate_template_shape() {
    assert_eq!(
        compact(&default_translate_template()),
        r#"{"model":"{model}","input":{"image_url":"{image_url}","source_lang":"{source_lang}","target_lang":"{target_lang}"}}"#
    );
}

fn describe(segs: &[Segment]) -> Vec<String> {
    segs.iter()
        .map(|seg| match seg {
            Segment::Key(k) => format!("Key({})", k),
            Segment::Wildcard => "Wildcard".to_string(),
        })
        .collect()
}

#[test]
fn parse_path_results_url() {
    let segs = parse_path("output.results[*].url");
    assert_eq!(describe(&segs), vec!["Key(output)", "Key(results)", "Wildcard", "Key(url)"]);
}

#[test]
fn parse_path_nested_wildcards() {
    let segs = parse_path("output.choices[*].message.content[*].image");
    assert_eq!(
        describe(&segs),
        vec![
            "Key(output)",
            "Key(choices)",
            "Wildcard",
            "Key(message)",
            "Key(content)",
            "Wildcard",
            "Key(image)"
        ]
    );
}

#[test]
fn parse_path_leading_wildcard_key() {
    let segs = parse_path("data[*].url");
    assert_eq!(describe(&segs), vec!["Key(data)", "Wildcard", "Key(url)"]);
}

fn dashscope_results() -> Json {
    obj(vec![
        (
            "output",
            obj(vec![
                ("task_id", s("t-1")),
                (
                    "results",
                    arr(vec![
                        obj(vec![("url", s("https://a/1.png"))]),
                        obj(vec![("orig_url", s("x"))]),
                        obj(vec![("url", s("https://a/2.png"))]),
                        obj(vec![("url", Json::Number("5".to_string()))]),
                    ]),
                ),
            ]),
        ),
        ("request_id", s("r")),
    ])
}

#[test]
fn extract_strings_collects_string_leaves_in_order() {
    let urls = extract_strings(&dashscope_results(), "output.results[*].url");
    assert_eq!(urls, vec!["https://a/1.png".to_string(), "https://a/2.png".to_string()]);
}

#[test]
fn extract_strings_nested_choices() {
    let resp = obj(vec![(
        "output",
        obj(vec![(
            "choices",
            arr(vec![obj(vec![(
                "message",
                obj(vec![(
                    "content",
                    arr(vec![obj(vec![("image", s("https://e/1.png"))]), obj(vec![("text", s("ok"))])]),
                )]),
            )])]),
        )]),
    )]);
    let urls = extract_strings(&resp, "output.choices[*].message.content[*].image");
    assert_eq!(urls, vec!["https://e/1.png".to_string()]);
}

#[test]
fn extract_strings_missing_path_is_empty() {
    assert!(extract_strings(&dashscope_results(), "data[*].url").is_empty());
    assert!(extract_strings(&dashscope_results(), "output.task_id[*]").is_empty());
}

#[test]
fn extract_strings_single_key() {
    assert_eq!(extract_strings(&dashscope_results(), "request_id"), vec!["r".to_string()]);
}

#[test]
fn extract_base64_images_builds_data_uris() {
    let resp = obj(vec![(
        "candidates",
        arr(vec![
            obj(vec![("inlineData", obj(vec![("mimeType", s("image/png")), ("data", s("abc"))]))]),
            obj(vec![("inlineData", obj(vec![("data", s("nomime"))]))]),
            obj(vec![("inlineData", obj(vec![("mimeType", s("image/jpeg")), ("data", s("xyz"))]))]),
        ]),
    )]);
    let out = extract_base64_images(&resp, "candidates[*].inlineData");
    assert_eq!(
        out,
        vec!["data:image/png;base64,abc".to_string(), "data:image/jpeg;base64,xyz".to_string()]
    );
}

#[test]
fn infer_service_type_by_name() {
    assert_eq!(infer_service_type("qwen-image-edit-max"), ServiceType::Img2img);
    assert_eq!(infer_service_type("qwen-mt-image"), ServiceType::Translate);
    assert_eq!(infer_service_type("qwen-image-plus"), ServiceType::Text2img);
    assert_eq!(infer_service_type("mt-edit"), ServiceType::Img2img);
    assert_eq!(infer_service_type(""), ServiceType::Text2img);
}

#[test]
fn render_keeps_templates_without_placeholders() {
    let template = obj(vec![
        ("model", s("fixed-model")),
        ("input", obj(vec![("list", arr(vec![s("a}"), Json::Number("2.5".to_string()), Json::Null]))])),
        ("flag", Json::Bool(false)),
    ]);
    let mut vars = TemplateVars::new();
    vars.insert("model", s("other"));
    vars.insert("a", s("b"));
    let out = render_template(&template, &vars).unwrap();
    assert_eq!(compact(&out), compact(&template));
}

#[test]
fn extraction_paths_compose() {
    let doc = dashscope_results();
    let whole = extract_strings(&doc, "output.results[*].url");
    let mut stepwise: Vec<String> = Vec::new();
    if let Json::Object(top) = &doc {
        for (k, v) in top {
            if k == "output" {
                stepwise.extend(extract_strings(v, "results[*].url"));
            }
        }
    }
    assert_eq!(whole, stepwise);
}
