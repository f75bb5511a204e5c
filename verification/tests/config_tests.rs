use qwen_imager::commands::generation::{
    default_dashscope_poll_config, default_response_path, find_model_by_service_type,
    find_model_config, resolve_mode_and_poll, resolve_model,
};
use qwen_imager::error::AppError;
use qwen_imager::json::Json;
use qwen_imager::models::config::{
    default_poll_interval, default_timeout, ApiMode, AsyncPollConfig, Configuration, ModelConfig,
    Provider, ResponseFormat, ServiceType,
};
use qwen_imager::services::config_loader::{
    check_model, load_config, load_config_inner, validate_config, ConfigRead,
};

fn model(url: &str) -> ModelConfig {
    ModelConfig {
        url: url.to_string(),
        service_type: None,
        mode: ApiMode::Sync,
        request_template: None,
        response_image_path: None,
        response_format: ResponseFormat::Url,
        headers: None,
        async_poll: None,
        supports_size: false,
    }
}

fn poll(url: &str, interval: u64, timeout: u64) -> AsyncPollConfig {
    AsyncPollConfig {
        submit_headers: vec![],
        poll_url: url.to_string(),
        poll_interval_secs: interval,
        timeout_secs: timeout,
    }
}

fn provider(key: &str, models: Vec<(&str, ModelConfig)>) -> Provider {
    Provider {
        api_key: key.to_string(),
        models: models.into_iter().map(|(n, m)| (n.to_string(), m)).collect(),
    }
}

fn config(providers: Vec<(&str, Provider)>) -> Configuration {
    Configuration { providers: providers.into_iter().map(|(n, p)| (n.to_string(), p)).collect() }
}

fn sample_config() -> Configuration {
    let mut edit = model("https://dashscope.aliyuncs.com/api/v1/services/aigc/multimodal-generation/generation");
    edit.supports_size = true;
    let mut gemini = model("https://example.com/v1/images");
    gemini.service_type = Some(ServiceType::Text2img);
    config(vec![
        (
            "qwen",
            provider(
                "sk-qwen",
                vec![
                    ("qwen-image-plus", model("https://dashscope.aliyuncs.com/api/v1/services/aigc/text2image/image-synthesis")),
                    ("qwen-image-edit-max", edit),
                    ("qwen-mt-image", model("https://dashscope.aliyuncs.com/api/v1/services/aigc/image2image/image-synthesis")),
                ],
            ),
        ),
        ("other", provider("sk-other", vec![("gemini-image", gemini)])),
    ])
}

fn config_detail(e: &AppError) -> String {
    match e {
        AppError::Config(d) => d.clone(),
        other => panic!("expected a configuration error, got {:?}", other),
    }
}

#[test]
fn default_poll_settings() {
    assert_eq!(default_poll_interval(), 3);
    assert_eq!(default_timeout(), 180);
    let p = default_dashscope_poll_config();
    assert_eq!(p.poll_url, "https://dashscope.aliyuncs.com/api/v1/tasks/{task_id}");
    assert_eq!(p.submit_headers, vec![("X-DashScope-Async".to_string(), "enable".to_string())]);
    assert_eq!(p.poll_interval_secs, 3);
    assert_eq!(p.timeout_secs, 180);
}

#[test]
fn load_config_describes_every_model() {
    let status = load_config(ConfigRead::Parsed(sample_config()));
    assert!(status.loaded);
    assert!(status.error_message.is_none());
    let described: Vec<(String, String, ServiceType, bool)> = status
        .available_models
        .iter()
        .map(|m| (m.name.clone(), m.provider.clone(), m.service_type, m.supports_size))
        .collect();
    assert_eq!(
        described,
        vec![
            ("qwen-image-plus".to_string(), "qwen".to_string(), ServiceType::Text2img, false),
            ("qwen-image-edit-max".to_string(), "qwen".to_string(), ServiceType::Img2img, true),
            ("qwen-mt-image".to_string(), "qwen".to_string(), ServiceType::Translate, false),
            ("gemini-image".to_string(), "other".to_string(), ServiceType::Text2img, false),
        ]
    );
}

#[test]
fn load_config_reports_missing_file() {
    let status = load_config(ConfigRead::Missing { path: "/home/u/.qwenimage/setting.json".to_string() });
    assert!(!status.loaded);
    assert!(status.available_models.is_empty());
    assert_eq!(
        status.error_message.unwrap(),
        "Configuration error: Configuration file not found: /home/u/.qwenimage/setting.json. Please create it with your API key and model endpoints."
    );
}

#[test]
fn load_config_reports_no_home() {
    let status = load_config(ConfigRead::NoHome);
    assert_eq!(status.error_message.unwrap(), "Configuration error: Cannot determine home directory");
}

#[test]
fn load_config_inner_read_errors() {
    let e = load_config_inner(ConfigRead::Unreadable { path: "/p".to_string(), detail: "denied".to_string() })
        .err()
        .unwrap();
    assert_eq!(config_detail(&e), "Failed to read configuration file /p: denied");
    let e = load_config_inner(ConfigRead::Malformed { path: "/p".to_string(), detail: "EOF".to_string() })
        .err()
        .unwrap();
    assert_eq!(config_detail(&e), "Configuration file format error: EOF. Please check that /p is valid JSON.");
}

#[test]
fn load_config_inner_returns_config_and_models() {
    let (c, infos) = load_config_inner(ConfigRead::Parsed(sample_config())).unwrap();
    assert_eq!(c.providers.len(), 2);
    assert_eq!(infos.len(), 4);
    assert_eq!(infos[3].provider, "other");
}

#[test]
fn validate_rejects_no_provider() {
    let e = validate_config(&config(vec![])).err().unwrap();
    assert_eq!(config_detail(&e), "Missing providers: providers is empty. Please configure at least one provider.");
}

#[test]
fn validate_rejects_blank_api_key() {
    let c = config(vec![("qwen", provider("  ", vec![("m", model("https://x"))]))]);
    let e = validate_config(&c).err().unwrap();
    assert_eq!(config_detail(&e), "Missing apiKey: providers.qwen.apiKey is empty. Please set the provider's API key.");
}

#[test]
fn validate_rejects_provider_without_models() {
    let c = config(vec![("qwen", provider("k", vec![("m", model("https://x"))])), ("b", provider("k", vec![]))]);
    let e = validate_config(&c).err().unwrap();
    assert_eq!(config_detail(&e), "Missing models: providers.b.models is empty. Please configure at least one model.");
}

#[test]
fn validate_rejects_blank_url() {
    let c = config(vec![("qwen", provider("k", vec![("ok", model("http://x")), ("bad", model(" "))]))]);
    let e = validate_config(&c).err().unwrap();
    assert_eq!(config_detail(&e), "Model 'bad' has an empty URL. Please set the API endpoint URL.");
}

#[test]
fn validate_rejects_url_without_scheme() {
    let c = config(vec![("qwen", provider("k", vec![("m", model("ftp://x"))]))]);
    let e = validate_config(&c).err().unwrap();
    assert_eq!(config_detail(&e), "Model 'm' URL must start with http:// or https://. Got: ftp://x");
}

#[test]
fn validate_rejects_async_mode_without_poll_section() {
    let mut m = model("https://x");
    m.mode = ApiMode::AsyncPoll;
    let e = check_model("m", &m).unwrap();
    assert_eq!(config_detail(&e), "Model 'm' uses async_poll mode but has no async_poll configuration.");
}

#[test]
fn validate_rejects_poll_url_without_task_id() {
    let mut m = model("https://x");
    m.async_poll = Some(poll("https://x/tasks", 3, 180));
    let e = check_model("m", &m).unwrap();
    assert_eq!(config_detail(&e), "Model 'm' async_poll.poll_url must contain {task_id}. Got: https://x/tasks");
}

#[test]
fn validate_rejects_zero_poll_interval() {
    let mut m = model("https://x");
    m.async_poll = Some(poll("https://x/{task_id}", 0, 180));
    let e = check_model("m", &m).unwrap();
    assert_eq!(config_detail(&e), "Model 'm' async_poll.poll_interval_secs must be at least 1.");
}

#[test]
fn validate_rejects_timeout_below_interval() {
    let mut m = model("https://x");
    m.async_poll = Some(poll("https://x/{task_id}", 10, 5));
    let e = check_model("m", &m).unwrap();
    assert_eq!(config_detail(&e), "Model 'm' async_poll.timeout_secs must not be less than poll_interval_secs.");
}

#[test]
fn validate_rejects_non_object_template() {
    let mut m = model("https://x");
    m.request_template = Some(Json::Array(vec![]));
    let e = check_model("m", &m).unwrap();
    assert_eq!(config_detail(&e), "Model 'm' request_template must be a JSON object.");
    m.request_template = Some(Json::Object(vec![]));
    assert!(check_model("m", &m).is_none());
}

#[test]
fn validate_accepts_complete_async_model() {
    let mut m = model("https://x");
    m.mode = ApiMode::AsyncPoll;
    m.async_poll = Some(poll("https://x/tasks/{task_id}", 3, 3));
    let c = config(vec![("p", provider("k", vec![("m", m)]))]);
    assert!(validate_config(&c).is_ok());
}

#[test]
fn find_model_config_by_name() {
    let c = sample_config();
    let (key, mc) = find_model_config(&c, "gemini-image").unwrap();
    assert_eq!(key, "sk-other");
    assert_eq!(mc.url, "https://example.com/v1/images");
}

#[test]
fn find_model_config_unknown_name() {
    let c = sample_config();
    let e = find_model_config(&c, "nope").err().unwrap();
    assert_eq!(config_detail(&e), "Model 'nope' not found in configuration");
}

#[test]
fn find_model_by_service_type_first_in_file_order() {
    let c = sample_config();
    let (key, name, _mc) = find_model_by_service_type(&c, ServiceType::Text2img).unwrap();
    assert_eq!(key, "sk-qwen");
    assert_eq!(name, "qwen-image-plus");
    let (_, name, mc) = find_model_by_service_type(&c, ServiceType::Img2img).unwrap();
    assert_eq!(name, "qwen-image-edit-max");
    assert!(mc.supports_size);
    let (_, name, _) = find_model_by_service_type(&c, ServiceType::Translate).unwrap();
    assert_eq!(name, "qwen-mt-image");
}

#[test]
fn find_model_by_service_type_none_configured() {
    let c = config(vec![("p", provider("k", vec![("qwen-image-plus", model("https://x"))]))]);
    let e = find_model_by_service_type(&c, ServiceType::Translate).err().unwrap();
    assert_eq!(config_detail(&e), "No model configured for service type 'translate'");
}

#[test]
fn resolve_model_named_and_by_type() {
    let c = sample_config();
    let (key, name, mc) = resolve_model(&c, &Some("qwen-mt-image".to_string()), ServiceType::Text2img).unwrap();
    assert_eq!((key.as_str(), name.as_str()), ("sk-qwen", "qwen-mt-image"));
    assert!(mc.url.ends_with("image2image/image-synthesis"));
    let (key, name, _) = resolve_model(&c, &None, ServiceType::Img2img).unwrap();
    assert_eq!((key.as_str(), name.as_str()), ("sk-qwen", "qwen-image-edit-max"));
    assert!(resolve_model(&c, &Some("x".to_string()), ServiceType::Img2img).is_err());
}

#[test]
fn mode_inferred_for_legacy_dashscope_models() {
    let m = model("https://x");
    let (mode, p) = resolve_mode_and_poll(&m, "qwen-image-plus");
    assert_eq!(mode, ApiMode::AsyncPoll);
    assert_eq!(p.unwrap().poll_url, "https://dashscope.aliyuncs.com/api/v1/tasks/{task_id}");
    let (mode, p) = resolve_mode_and_poll(&m, "qwen-mt-image");
    assert_eq!(mode, ApiMode::AsyncPoll);
    assert!(p.is_some());
    let (mode, p) = resolve_mode_and_poll(&m, "qwen-image-edit");
    assert_eq!(mode, ApiMode::Sync);
    assert!(p.is_none());
}

#[test]
fn mode_explicit_settings_win() {
    let mut m = model("https://x");
    m.service_type = Some(ServiceType::Text2img);
    let (mode, p) = resolve_mode_and_poll(&m, "qwen-image-plus");
    assert_eq!(mode, ApiMode::Sync);
    assert!(p.is_none());

    let mut m = model("https://x");
    m.mode = ApiMode::AsyncPoll;
    m.async_poll = Some(poll("https://y/{task_id}", 5, 60));
    let (mode, p) = resolve_mode_and_poll(&m, "anything");
    assert_eq!(mode, ApiMode::AsyncPoll);
    let p = p.unwrap();
    assert_eq!((p.poll_url.as_str(), p.poll_interval_secs, p.timeout_secs), ("https://y/{task_id}", 5, 60));

    let mut m = model("https://x");
    m.mode = ApiMode::AsyncPoll;
    let (_, p) = resolve_mode_and_poll(&m, "anything");
    assert_eq!(p.unwrap().timeout_secs, 180);
}

#[test]
fn response_path_defaults() {
    let m = model("https://x");
    assert_eq!(default_response_path(&m, "qwen-image-edit"), "output.choices[*].message.content[*].image");
    assert_eq!(default_response_path(&m, "qwen-image-plus"), "output.results[*].url");
    assert_eq!(default_response_path(&m, "qwen-mt-image"), "output.results[*].url");
    let mut m = model("https://x");
    m.response_image_path = Some("data[*].url".to_string());
    assert_eq!(default_response_path(&m, "qwen-image-edit"), "data[*].url");
}

#[test]
fn url_only_models_work_as_before() {
    let c = config(vec![(
        "qwen",
        provider(
            "sk",
            vec![
                ("qwen-image-plus", model("https://a")),
                ("qwen-image-edit-max", model("https://b")),
                ("qwen-mt-image", model("https://c")),
            ],
        ),
    )]);
    assert!(validate_config(&c).is_ok());
    let modes: Vec<ApiMode> = c.providers[0].1.models.iter().map(|(n, m)| resolve_mode_and_poll(m, n).0).collect();
    assert_eq!(modes, vec![ApiMode::AsyncPoll, ApiMode::Sync, ApiMode::AsyncPoll]);
}

#[test]
fn validate_response_image_paths() {
    let mut m = model("https://x");
    for good in [
        "output.results[*].url",
        "output.choices[*].message.content[*].image",
        "candidates[*].inlineData",
        "data[*].url",
        "[*].url",
        "request_id",
    ] {
        m.response_image_path = Some(good.to_string());
        assert!(check_model("m", &m).is_none(), "{}", good);
    }
    for bad in ["", "output..url", "output.", ".url", "output.results[0].url", "a[*]b", "a]"] {
        m.response_image_path = Some(bad.to_string());
        let e = check_model("m", &m).unwrap();
        assert_eq!(
            config_detail(&e),
            format!("Model 'm' response_image_path is not a valid dotted path. Got: {}", bad)
        );
    }
}

#[test]
fn validate_rejects_model_name_defined_twice() {
    let c = config(vec![
        ("qwen", provider("k1", vec![("qwen-image-plus", model("https://a")), ("edit", model("https://b"))])),
        ("mirror", provider("k2", vec![("other", model("https://c")), ("qwen-image-plus", model("https://d"))])),
    ]);
    let e = validate_config(&c).err().unwrap();
    assert_eq!(
        config_detail(&e),
        "Model 'qwen-image-plus' is defined more than once. Please give each model a distinct name."
    );
    let status = load_config(ConfigRead::Parsed(c));
    assert!(!status.loaded);
}

#[test]
fn per_model_problems_come_before_name_conflicts() {
    let c = config(vec![
        ("a", provider("k", vec![("m", model("https://a"))])),
        ("b", provider("k", vec![("m", model("ftp://b"))])),
    ]);
    let e = validate_config(&c).err().unwrap();
    assert_eq!(config_detail(&e), "Model 'm' URL must start with http:// or https://. Got: ftp://b");
}
