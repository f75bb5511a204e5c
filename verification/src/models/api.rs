//! Request and response bodies of the DashScope API, and the progress events
//! sent to the frontend.

use vstd::prelude::*;

use crate::json::Json;

verus! {

/// Parameters for image generation requests.
#[derive(Debug)]
pub struct GenerationParams {
    pub size: Option<String>,
    pub n: Option<u32>,
    pub negative_prompt: Option<String>,
    pub prompt_extend: Option<bool>,
    pub watermark: Option<bool>,
}

impl Default for GenerationParams {
    fn default() -> (p: GenerationParams)
        ensures
            p.size is None,
            p.n is None,
            p.negative_prompt is None,
            p.prompt_extend is None,
            p.watermark is None,
    {
        GenerationParams {
            size: None,
            n: None,
            negative_prompt: None,
            prompt_extend: None,
            watermark: None,
        }
    }
}

/// Request body for the text-to-image API:
/// `{ "model": "...", "input": { "prompt": "..." }, "parameters": { ... } }`.
#[derive(Debug)]
pub struct TextToImageRequest {
    pub model: String,
    pub input: TextToImageInput,
    pub parameters: Option<GenerationParams>,
}

#[derive(Debug)]
pub struct TextToImageInput {
    pub prompt: String,
}

/// Request body for the image editing API:
/// `{ "model": "...", "input": { "messages": [...] }, "parameters": { ... } }`.
#[derive(Debug)]
pub struct ImageEditRequest {
    pub model: String,
    pub input: ImageEditInput,
    pub parameters: Option<GenerationParams>,
}

#[derive(Debug)]
pub struct ImageEditInput {
    pub messages: Vec<ImageEditMessage>,
}

#[derive(Debug)]
pub struct ImageEditMessage {
    pub role: String,
    pub content: Vec<ImageEditContent>,
}

/// A content item in an image-edit message: either an image URL or text.
#[derive(Debug)]
pub enum ImageEditContent {
    Image { image: String },
    Text { text: String },
}

/// Request body for the image translation API.
#[derive(Debug)]
pub struct TranslationRequest {
    pub model: String,
    pub input: TranslationInput,
}

#[derive(Debug)]
pub struct TranslationInput {
    pub image_url: String,
    pub source_lang: String,
    pub target_lang: String,
    pub ext: Option<TranslationExt>,
}

#[derive(Debug)]
pub struct TranslationExt {
    pub config: TranslationExtConfig,
}

#[derive(Debug)]
pub struct TranslationExtConfig {
    pub image_segment: bool,
}

/// Response from submitting an async task: `output.task_id` and `output.task_status`.
#[derive(Debug)]
pub struct AsyncTaskResponse {
    pub output: AsyncTaskOutput,
    pub request_id: Option<String>,
}

#[derive(Debug)]
pub struct AsyncTaskOutput {
    pub task_id: String,
    pub task_status: String,
}

/// Response from polling a task's status.
#[derive(Debug)]
pub struct TaskQueryResponse {
    pub output: TaskQueryOutput,
    pub request_id: Option<String>,
    pub usage: Option<Json>,
}

#[derive(Debug)]
pub struct TaskQueryOutput {
    pub task_id: String,
    pub task_status: String,
    pub results: Option<Vec<TaskResult>>,
    pub task_metrics: Option<TaskMetrics>,
    pub code: Option<String>,
    pub message: Option<String>,
}

/// A single result item from a completed task.
#[derive(Debug)]
pub struct TaskResult {
    pub url: Option<String>,
    pub orig_url: Option<String>,
}

/// Metrics about task processing (e.g. how many images were generated).
#[derive(Debug)]
pub struct TaskMetrics {
    pub total: Option<u32>,
    pub succeeded: Option<u32>,
    pub failed: Option<u32>,
}

/// Response from the synchronous image-edit API.
#[derive(Debug)]
pub struct SyncGenerationResponse {
    pub output: SyncGenerationOutput,
    pub request_id: Option<String>,
    pub usage: Option<Json>,
}

#[derive(Debug)]
pub struct SyncGenerationOutput {
    pub choices: Option<Vec<SyncChoice>>,
    pub results: Option<Vec<TaskResult>>,
}

#[derive(Debug)]
pub struct SyncChoice {
    pub message: Option<SyncChoiceMessage>,
}

#[derive(Debug)]
pub struct SyncChoiceMessage {
    pub content: Option<Vec<SyncChoiceContent>>,
}

#[derive(Debug)]
pub enum SyncChoiceContent {
    Image { image: String },
    Text { text: String },
}

/// Events pushed to the frontend during a generation.
#[derive(Debug)]
pub enum GenerationEvent {
    Submitted { task_id: String },
    Polling { task_id: String, status: String },
    Succeeded { task_id: String, message_id: String, image_urls: Vec<String> },
    Failed { task_id: String, error: String },
}

} // verus!
