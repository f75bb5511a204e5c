//! The bookkeeping rules of the conversation database: titles, timestamps,
//! missing rows, and where the database file lives.

use vstd::prelude::*;

use crate::error::{error_detail, AppError};
use crate::text::{append_chars, append_str, chars_of};

verus! {

#[verifier::external_type_specification]
#[verifier::external_body]
pub struct ExSystemTime(std::time::SystemTime);

#[verifier::external_type_specification]
#[verifier::external_body]
pub struct ExSystemTimeError(std::time::SystemTimeError);

/// The current time of the system clock (`SystemTime::now`). Nothing is
/// stated of it: it depends on the clock.
#[verifier::external_body]
fn system_now() -> std::time::SystemTime {
    std::time::SystemTime::now()
}

/// The time elapsed from the Unix epoch to `t`
/// (`SystemTime::duration_since(UNIX_EPOCH)`), an error where `t` is earlier.
/// Nothing is stated of the duration.
#[verifier::external_body]
fn since_unix_epoch(t: &std::time::SystemTime) -> Result<std::time::Duration, std::time::SystemTimeError> {
    t.duration_since(std::time::UNIX_EPOCH)
}

/// The whole seconds of a duration (`Duration::as_secs`). Nothing is
/// stated: a duration's value is not visible to the library.
#[verifier::external_body]
fn whole_seconds(d: &std::time::Duration) -> u64 {
    d.as_secs()
}

/// Get the current Unix timestamp in seconds (0 where the clock is set
/// before the epoch).
pub fn now_ts() -> i64 {
    let now = system_now();
    let secs: u64 = match since_unix_epoch(&now) {
        Ok(d) => whole_seconds(&d),
        Err(_) => 0,
    };
    secs as i64
}

/// The title of a conversation that has none of its own yet: `新对话`
/// ("new conversation").
pub open spec fn default_title() -> Seq<char> {
    "新对话"@
}

/// The title of a new conversation: the given one, or the default title
/// where it is empty; never empty.
pub fn effective_title(title: &str) -> (t: String)
    ensures
        title@.len() == 0 ==> t@ == default_title(),
        title@.len() > 0 ==> t@ == title@,
        t@.len() > 0,
{
    proof {
        reveal_strlit("新对话");
    }
    let mut t = String::new();
    let v = chars_of(title);
    if v.len() == 0 {
        append_str(&mut t, "新对话");
    } else {
        append_str(&mut t, title);
    }
    t
}

/// The title the frontend asks for: the given one, or the default title.
pub fn requested_title(title: Option<String>) -> (t: String)
    ensures
        match title {
            Some(s) => t == s,
            None => t@ == default_title(),
        },
{
    match title {
        Some(s) => s,
        None => {
            let mut t = String::new();
            append_str(&mut t, "新对话");
            t
        },
    }
}

/// The page of the conversation list the frontend asks for: `limit`
/// (default 50) conversations from `offset` (default 0).
pub fn page_bounds(limit: Option<i64>, offset: Option<i64>) -> (r: (i64, i64))
    ensures
        r.0 == match limit {
            Some(l) => l,
            None => 50,
        },
        r.1 == match offset {
            Some(o) => o,
            None => 0,
        },
{
    let l = match limit {
        Some(l) => l,
        None => 50,
    };
    let o = match offset {
        Some(o) => o,
        None => 0,
    };
    (l, o)
}

/// The title a conversation takes from its first user message: the first
/// 30 characters of the text.
pub open spec fn title_from_text(text: Seq<char>) -> Seq<char> {
    if text.len() <= 30 {
        text
    } else {
        text.take(30)
    }
}

/// Whether adding a message needs the count of the conversation's user
/// messages: only for a user message with text.
pub fn counts_user_messages(role: &str, text_content: &Option<String>) -> (b: bool)
    ensures
        b == (role@ == "user"@ && text_content is Some),
{
    let r = chars_of(role);
    let user = chars_of("user");
    let is_user = r.len() == user.len() && crate::text::starts_with(&r, &user);
    assert(r@.len() != user@.len() || r@.subrange(0, user@.len() as int) =~= r@);
    is_user && text_content.is_some()
}

/// The new title of a conversation after a user message with text was
/// added, given how many user messages it now has: the first 30 characters
/// of the text when this is the first one and the text is not empty; none
/// otherwise (the conversation keeps its title, and its update time is
/// touched instead). A title so given is never empty, and at most 30
/// characters long.
pub fn title_after_user_message(text: &str, user_message_count: i64) -> (t: Option<String>)
    ensures
        user_message_count == 1 && text@.len() > 0 ==> (t matches Some(s) && s@ == title_from_text(
            text@,
        )),
        user_message_count != 1 || text@.len() == 0 ==> t is None,
        t matches Some(s) ==> 0 < s@.len() <= 30,
{
    if user_message_count != 1 || text.unicode_len() == 0 {
        return None;
    }
    let v = chars_of(text);
    let n: usize = if v.len() <= 30 { v.len() } else { 30 };
    let mut s = String::new();
    append_chars(&mut s, &v, 0, n);
    assert(v@.subrange(0, n as int) == title_from_text(text@));
    Some(s)
}

/// The error for a conversation that does not exist.
pub fn conversation_not_found(conversation_id: &str) -> (e: AppError)
    ensures
        e is NotFound,
        error_detail(e) == "Conversation not found: "@ + conversation_id@,
{
    let mut m = String::new();
    append_str(&mut m, "Conversation not found: ");
    append_str(&mut m, conversation_id);
    AppError::NotFound(m)
}

/// An update or delete of a conversation succeeded where it touched a row;
/// where it touched none, the conversation does not exist.
pub fn require_rows(rows: usize, conversation_id: &str) -> (r: Result<(), AppError>)
    ensures
        rows > 0 ==> r is Ok,
        rows == 0 ==> (r matches Err(e) && e is NotFound && error_detail(e)
            == "Conversation not found: "@ + conversation_id@),
{
    if rows == 0 {
        Err(conversation_not_found(conversation_id))
    } else {
        Ok(())
    }
}

/// The error for a database file that cannot be opened:
/// `Failed to open database at {path}: {detail}`.
pub fn open_failed(path: &str, detail: &str) -> (e: AppError)
    ensures
        e is Io,
        error_detail(e) == "Failed to open database at "@ + path@ + ": "@ + detail@,
{
    let mut m = String::new();
    append_str(&mut m, "Failed to open database at ");
    append_str(&mut m, path);
    append_str(&mut m, ": ");
    append_str(&mut m, detail);
    AppError::Io(m)
}

/// The error for a database lock that cannot be taken:
/// `Failed to acquire database lock: {detail}`.
pub fn lock_failed(detail: &str) -> (e: AppError)
    ensures
        e is Io,
        error_detail(e) == "Failed to acquire database lock: "@ + detail@,
{
    let mut m = String::new();
    append_str(&mut m, "Failed to acquire database lock: ");
    append_str(&mut m, detail);
    AppError::Io(m)
}

/// The text of a Unix path joined with a relative name, as `Path::join`
/// gives it: no separator is added after an empty path or one that ends in `/`.
pub open spec fn joined(dir: Seq<char>, name: Seq<char>) -> Seq<char> {
    if dir.len() == 0 || dir.last() == '/' {
        dir + name
    } else {
        dir + seq!['/'] + name
    }
}

/// Resolve the database file path: `{app_data_dir}/qwenimager.db`.
pub fn resolve_db_path(app_data_dir: &str) -> (p: String)
    ensures
        p@ == joined(app_data_dir@, "qwenimager.db"@),
{
    let v = chars_of(app_data_dir);
    let mut p = String::new();
    append_str(&mut p, app_data_dir);
    if v.len() > 0 && v[v.len() - 1] != '/' {
        crate::text::push_char(&mut p, '/');
    }
    append_str(&mut p, "qwenimager.db");
    p
}

} // verus!
