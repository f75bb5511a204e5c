//! Configuration read from `~/.qwenimage/setting.json`, and the status sent
//! to the frontend after loading it.

use vstd::prelude::*;

use crate::json::{Json, JsonValue};

verus! {

/// The functional type of an API service.
#[derive(Debug, Clone, Copy, PartialEq, Eq, Structural)]
pub enum ServiceType {
    Text2img,
    Img2img,
    Translate,
}

/// The format of image data in the API response.
#[derive(Debug, Clone, Copy, PartialEq, Eq, Structural)]
pub enum ResponseFormat {
    /// Response contains image URLs (e.g., DashScope, DALL-E)
    Url,
    /// Response contains base64-encoded image data (e.g., Gemini)
    Base64,
}

/// The API calling mode.
#[derive(Debug, Clone, Copy, PartialEq, Eq, Structural)]
pub enum ApiMode {
    Sync,
    AsyncPoll,
}

impl Default for ServiceType {
    fn default() -> (r: ServiceType)
        ensures
            r == ServiceType::Text2img,
    {
        ServiceType::Text2img
    }
}

impl Default for ResponseFormat {
    fn default() -> (r: ResponseFormat)
        ensures
            r == ResponseFormat::Url,
    {
        ResponseFormat::Url
    }
}

impl Default for ApiMode {
    fn default() -> (r: ApiMode)
        ensures
            r == ApiMode::Sync,
    {
        ApiMode::Sync
    }
}

/// The model of a list of `(name, value)` string pairs.
pub open spec fn pairs_view(s: Seq<(String, String)>) -> Seq<(Seq<char>, Seq<char>)> {
    s.map_values(|p: (String, String)| (p.0@, p.1@))
}

/// The model of an optional string.
pub open spec fn opt_view(o: Option<String>) -> Option<Seq<char>> {
    match o {
        Some(s) => Some(s@),
        None => None,
    }
}

/// Configuration for the async submit+poll API pattern.
#[derive(Debug)]
pub struct AsyncPollConfig {
    /// Extra headers added to the submit POST request, e.g. `X-DashScope-Async: enable`.
    pub submit_headers: Vec<(String, String)>,
    /// URL template for polling; contains a `{task_id}` placeholder.
    pub poll_url: String,
    /// Seconds between poll requests. Default: 3.
    pub poll_interval_secs: u64,
    /// Total timeout in seconds before giving up. Default: 180.
    pub timeout_secs: u64,
}

/// The model of an [`AsyncPollConfig`].
pub struct AsyncPollSpec {
    pub submit_headers: Seq<(Seq<char>, Seq<char>)>,
    pub poll_url: Seq<char>,
    pub poll_interval_secs: u64,
    pub timeout_secs: u64,
}

impl View for AsyncPollConfig {
    type V = AsyncPollSpec;

    open spec fn view(&self) -> AsyncPollSpec {
        AsyncPollSpec {
            submit_headers: pairs_view(self.submit_headers@),
            poll_url: self.poll_url@,
            poll_interval_secs: self.poll_interval_secs,
            timeout_secs: self.timeout_secs,
        }
    }
}

/// Default poll interval in seconds.
pub fn default_poll_interval() -> (r: u64)
    ensures
        r == 3,
{
    3
}

/// Default total timeout in seconds.
pub fn default_timeout() -> (r: u64)
    ensures
        r == 180,
{
    180
}

/// A copy of a list of string pairs.
pub fn duplicate_pairs(v: &Vec<(String, String)>) -> (r: Vec<(String, String)>)
    ensures
        pairs_view(r@) == pairs_view(v@),
{
    let mut r: Vec<(String, String)> = Vec::new();
    let mut i: usize = 0;
    while i < v.len()
        invariant
            i <= v@.len(),
            r@.len() == i,
            forall|j: int| 0 <= j < i ==> r@[j].0@ == v@[j].0@ && r@[j].1@ == v@[j].1@,
        decreases v.len() - i,
    {
        r.push((v[i].0.clone(), v[i].1.clone()));
        i = i + 1;
    }
    assert(pairs_view(r@) =~= pairs_view(v@));
    r
}

/// A copy of an optional string.
pub fn duplicate_opt(o: &Option<String>) -> (r: Option<String>)
    ensures
        opt_view(r) == opt_view(*o),
{
    match o {
        Some(s) => Some(s.clone()),
        None => None,
    }
}

impl AsyncPollConfig {
    /// A copy of this configuration.
    pub fn duplicate(&self) -> (r: AsyncPollConfig)
        ensures
            r@ == self@,
    {
        AsyncPollConfig {
            submit_headers: duplicate_pairs(&self.submit_headers),
            poll_url: self.poll_url.clone(),
            poll_interval_secs: self.poll_interval_secs,
            timeout_secs: self.timeout_secs,
        }
    }
}

/// Configuration for a single model endpoint. Only `url` is required in the
/// configuration file; every other field has a default.
#[derive(Debug)]
pub struct ModelConfig {
    /// The API endpoint URL.
    pub url: String,
    /// Explicit service type. If absent, inferred from model name heuristics.
    pub service_type: Option<ServiceType>,
    /// API calling mode: sync (default) or async_poll.
    pub mode: ApiMode,
    /// JSON request body template with `{placeholder}` variables.
    pub request_template: Option<Json>,
    /// Dot-notation path to extract image data from the API response.
    pub response_image_path: Option<String>,
    /// Format of image data in the response: url (default) or base64.
    pub response_format: ResponseFormat,
    /// Extra headers to include in API requests.
    pub headers: Option<Vec<(String, String)>>,
    /// Configuration for async poll mode.
    pub async_poll: Option<AsyncPollConfig>,
    /// Whether this model supports the `size` parameter for output resolution.
    pub supports_size: bool,
}

/// The model of a [`ModelConfig`].
pub struct ModelConfigSpec {
    pub url: Seq<char>,
    pub service_type: Option<ServiceType>,
    pub mode: ApiMode,
    pub request_template: Option<JsonValue>,
    pub response_image_path: Option<Seq<char>>,
    pub response_format: ResponseFormat,
    pub headers: Option<Seq<(Seq<char>, Seq<char>)>>,
    pub async_poll: Option<AsyncPollSpec>,
    pub supports_size: bool,
}

impl View for ModelConfig {
    type V = ModelConfigSpec;

    open spec fn view(&self) -> ModelConfigSpec {
        ModelConfigSpec {
            url: self.url@,
            service_type: self.service_type,
            mode: self.mode,
            request_template: match self.request_template {
                Some(t) => Some(t@),
                None => None,
            },
            response_image_path: opt_view(self.response_image_path),
            response_format: self.response_format,
            headers: match self.headers {
                Some(h) => Some(pairs_view(h@)),
                None => None,
            },
            async_poll: match self.async_poll {
                Some(p) => Some(p@),
                None => None,
            },
            supports_size: self.supports_size,
        }
    }
}

impl ModelConfig {
    /// A copy of this model configuration.
    pub fn duplicate(&self) -> (r: ModelConfig)
        ensures
            r@ == self@,
    {
        ModelConfig {
            url: self.url.clone(),
            service_type: self.service_type,
            mode: self.mode,
            request_template: match &self.request_template {
                Some(t) => Some(t.duplicate()),
                None => None,
            },
            response_image_path: duplicate_opt(&self.response_image_path),
            response_format: self.response_format,
            headers: match &self.headers {
                Some(h) => Some(duplicate_pairs(h)),
                None => None,
            },
            async_poll: match &self.async_poll {
                Some(p) => Some(p.duplicate()),
                None => None,
            },
            supports_size: self.supports_size,
        }
    }
}

/// A single AI provider's configuration.
#[derive(Debug)]
pub struct Provider {
    pub api_key: String,
    /// The configured models, by name, in file order; names are distinct.
    pub models: Vec<(String, ModelConfig)>,
}

/// Top-level configuration read from `~/.qwenimage/setting.json`.
#[derive(Debug)]
pub struct Configuration {
    /// The providers, by name, in file order; names are distinct.
    pub providers: Vec<(String, Provider)>,
}

/// Information about a single available model, sent to the frontend.
#[derive(Debug)]
pub struct ModelInfo {
    pub name: String,
    pub provider: String,
    pub service_type: ServiceType,
    pub supports_size: bool,
}

/// Status returned to the frontend after attempting to load configuration.
#[derive(Debug)]
pub struct ConfigStatus {
    pub loaded: bool,
    pub available_models: Vec<ModelInfo>,
    pub error_message: Option<String>,
}

} // verus!
