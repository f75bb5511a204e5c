//! Conversations, messages, attachments and generation results as stored in
//! the database and shown in the frontend.

use vstd::prelude::*;

use crate::json::Json;

verus! {

/// A conversation: a titled sequence of messages.
#[derive(Debug)]
pub struct Conversation {
    pub id: String,
    pub title: String,
    pub created_at: i64,
    pub updated_at: i64,
}

/// A conversation in the sidebar list, with its number of messages.
#[derive(Debug)]
pub struct ConversationSummary {
    pub id: String,
    pub title: String,
    pub created_at: i64,
    pub updated_at: i64,
    pub message_count: i64,
}

/// A single message within a conversation.
#[derive(Debug)]
pub struct Message {
    pub id: String,
    pub conversation_id: String,
    /// `"user"` or `"assistant"`.
    pub role: String,
    pub text_content: Option<String>,
    /// `"text2img"`, `"img2img"` or `"translate"`.
    pub mode: String,
    /// JSON text.
    pub extra_params: Option<String>,
    pub created_at: i64,
}

/// Full message detail returned to the frontend, with attachments and results.
#[derive(Debug)]
pub struct MessageDetail {
    pub id: String,
    pub role: String,
    pub text_content: Option<String>,
    pub mode: String,
    pub attachments: Vec<AttachmentInfo>,
    pub results: Vec<GenerationResultInfo>,
    pub extra_params: Option<Json>,
    pub created_at: i64,
}

/// An uploaded or pasted image attached to a message.
#[derive(Debug)]
pub struct Attachment {
    pub id: String,
    pub message_id: String,
    pub file_path: String,
    pub display_order: i32,
    pub file_size: i64,
    pub mime_type: String,
    /// `"upload"` or `"clipboard"`.
    pub source: String,
}

/// Attachment info for frontend display.
#[derive(Debug)]
pub struct AttachmentInfo {
    pub id: String,
    pub file_path: String,
    pub display_order: i32,
    pub file_size: i64,
    pub mime_type: String,
    pub source: String,
}

/// A generated image or video from an API call.
#[derive(Debug)]
pub struct GenerationResult {
    pub id: String,
    pub message_id: String,
    pub resource_url: Option<String>,
    pub local_path: Option<String>,
    /// `"image"` or `"video"`.
    pub resource_type: String,
    pub model_used: String,
    /// JSON text.
    pub generation_params: Option<String>,
    pub created_at: i64,
}

/// Generation result info for frontend display.
#[derive(Debug)]
pub struct GenerationResultInfo {
    pub id: String,
    pub resource_url: Option<String>,
    pub local_path: Option<String>,
    pub resource_type: String,
    pub model_used: String,
    pub created_at: i64,
}

} // verus!
