//! The error type shared by every operation of the library.

use vstd::prelude::*;

use crate::text::{append_str, decimal, push_decimal};

verus! {

/// Unified error type. Each variant carries a human-readable detail; the
/// frontend receives it as `{ kind, message }`.
#[derive(Debug)]
pub enum AppError {
    Network(String),
    Api(String),
    Timeout(String),
    Config(String),
    Unauthorized(String),
    RateLimited(String),
    Io(String),
    NotFound(String),
    Validation(String),
}

/// The kind string of an error, by which the frontend picks how to show it.
pub open spec fn error_kind(e: AppError) -> Seq<char> {
    match e {
        AppError::Network(_) => "network"@,
        AppError::Api(_) => "api"@,
        AppError::Timeout(_) => "timeout"@,
        AppError::Config(_) => "config"@,
        AppError::Unauthorized(_) => "unauthorized"@,
        AppError::RateLimited(_) => "rateLimited"@,
        AppError::Io(_) => "io"@,
        AppError::NotFound(_) => "notFound"@,
        AppError::Validation(_) => "validation"@,
    }
}

/// The detail carried by an error.
pub open spec fn error_detail(e: AppError) -> Seq<char> {
    match e {
        AppError::Network(s) => s@,
        AppError::Api(s) => s@,
        AppError::Timeout(s) => s@,
        AppError::Config(s) => s@,
        AppError::Unauthorized(s) => s@,
        AppError::RateLimited(s) => s@,
        AppError::Io(s) => s@,
        AppError::NotFound(s) => s@,
        AppError::Validation(s) => s@,
    }
}

/// The text put before the detail when an error is displayed.
pub open spec fn error_prefix(e: AppError) -> Seq<char> {
    match e {
        AppError::Network(_) => "Network error: "@,
        AppError::Api(_) => "API error: "@,
        AppError::Timeout(_) => "Request timed out: "@,
        AppError::Config(_) => "Configuration error: "@,
        AppError::Unauthorized(_) => "Unauthorized: "@,
        AppError::RateLimited(_) => "Rate limited: "@,
        AppError::Io(_) => "IO error: "@,
        AppError::NotFound(_) => "Not found: "@,
        AppError::Validation(_) => "Validation error: "@,
    }
}

/// The displayed message of an error: its prefix followed by its detail.
pub open spec fn error_message(e: AppError) -> Seq<char> {
    error_prefix(e) + error_detail(e)
}

/// The error that `map_http_error` gives for an HTTP status and response body.
pub open spec fn http_error_spec(status: u16, body: Seq<char>) -> (Seq<char>, Seq<char>) {
    if status == 400 {
        ("validation"@, "Bad request: "@ + body)
    } else if status == 401 {
        ("unauthorized"@, "Invalid API key. Please check your apiKey in ~/.qwenimage/setting.json"@)
    } else if status == 429 {
        ("rateLimited"@, "Rate limited by the API. Please try again later. "@ + body)
    } else if 500 <= status <= 599 {
        ("api"@, "Server error ("@ + decimal(status as nat) + "): "@ + body)
    } else {
        ("api"@, "HTTP error ("@ + decimal(status as nat) + "): "@ + body)
    }
}

impl AppError {
    /// Returns the error kind string used by the frontend to determine display strategy.
    pub fn kind(&self) -> (k: &'static str)
        ensures
            k@ == error_kind(*self),
    {
        match self {
            AppError::Network(_) => "network",
            AppError::Api(_) => "api",
            AppError::Timeout(_) => "timeout",
            AppError::Config(_) => "config",
            AppError::Unauthorized(_) => "unauthorized",
            AppError::RateLimited(_) => "rateLimited",
            AppError::Io(_) => "io",
            AppError::NotFound(_) => "notFound",
            AppError::Validation(_) => "validation",
        }
    }

    /// The detail carried by this error.
    pub fn detail(&self) -> (d: &String)
        ensures
            d@ == error_detail(*self),
    {
        match self {
            AppError::Network(s) => s,
            AppError::Api(s) => s,
            AppError::Timeout(s) => s,
            AppError::Config(s) => s,
            AppError::Unauthorized(s) => s,
            AppError::RateLimited(s) => s,
            AppError::Io(s) => s,
            AppError::NotFound(s) => s,
            AppError::Validation(s) => s,
        }
    }

    fn prefix(&self) -> (p: &'static str)
        ensures
            p@ == error_prefix(*self),
    {
        match self {
            AppError::Network(_) => "Network error: ",
            AppError::Api(_) => "API error: ",
            AppError::Timeout(_) => "Request timed out: ",
            AppError::Config(_) => "Configuration error: ",
            AppError::Unauthorized(_) => "Unauthorized: ",
            AppError::RateLimited(_) => "Rate limited: ",
            AppError::Io(_) => "IO error: ",
            AppError::NotFound(_) => "Not found: ",
            AppError::Validation(_) => "Validation error: ",
        }
    }

    /// The displayed message, such as `"Not found: Conversation not found: c1"`.
    pub fn message(&self) -> (m: String)
        ensures
            m@ == error_message(*self),
    {
        let mut m = String::new();
        append_str(&mut m, self.prefix());
        append_str(&mut m, self.detail().as_str());
        m
    }

    /// The error for a failed file operation, from the failure's text.
    pub fn io(detail: String) -> (e: AppError)
        ensures
            e == AppError::Io(detail),
    {
        AppError::Io(detail)
    }

    /// The error for a document that is not valid JSON, from the parser's text.
    pub fn json_parse(detail: &str) -> (e: AppError)
        ensures
            e is Config,
            error_detail(e) == "JSON parse error: "@ + detail@,
    {
        let mut m = String::new();
        append_str(&mut m, "JSON parse error: ");
        append_str(&mut m, detail);
        AppError::Config(m)
    }

    /// The error for a failed database operation, from the database's text.
    pub fn database(detail: &str) -> (e: AppError)
        ensures
            e is Io,
            error_detail(e) == "Database error: "@ + detail@,
    {
        let mut m = String::new();
        append_str(&mut m, "Database error: ");
        append_str(&mut m, detail);
        AppError::Io(m)
    }

    /// The error for a failed HTTP exchange: a timeout when the client reports
    /// one, a network error otherwise.
    pub fn from(timed_out: bool, detail: String) -> (e: AppError)
        ensures
            timed_out ==> e == AppError::Timeout(detail),
            !timed_out ==> e == AppError::Network(detail),
    {
        if timed_out {
            AppError::Timeout(detail)
        } else {
            AppError::Network(detail)
        }
    }
}

/// Map HTTP status codes to semantic `AppError` variants.
pub fn map_http_error(status: u16, body: &str) -> (e: AppError)
    ensures
        error_kind(e) == http_error_spec(status, body@).0,
        error_detail(e) == http_error_spec(status, body@).1,
{
    let mut m = String::new();
    if status == 400 {
        append_str(&mut m, "Bad request: ");
        append_str(&mut m, body);
        AppError::Validation(m)
    } else if status == 401 {
        append_str(&mut m, "Invalid API key. Please check your apiKey in ~/.qwenimage/setting.json");
        AppError::Unauthorized(m)
    } else if status == 429 {
        append_str(&mut m, "Rate limited by the API. Please try again later. ");
        append_str(&mut m, body);
        AppError::RateLimited(m)
    } else if 500 <= status && status <= 599 {
        append_str(&mut m, "Server error (");
        push_decimal(&mut m, status as u64);
        append_str(&mut m, "): ");
        append_str(&mut m, body);
        AppError::Api(m)
    } else {
        append_str(&mut m, "HTTP error (");
        push_decimal(&mut m, status as u64);
        append_str(&mut m, "): ");
        append_str(&mut m, body);
        AppError::Api(m)
    }
}

} // verus!
