use qwen_imager::commands::generation::parse_data_uri;
use qwen_imager::services::db::{
    conversation_not_found, counts_user_messages, effective_title, now_ts, page_bounds,
    require_rows, requested_title, resolve_db_path, title_after_user_message,
};
use qwen_imager::services::image_utils::{
    attachment_mime, attachment_source, encode_image_to_data_uri, format_data_uri,
    image_mime_type, path_extension, path_file_name,
};

fn text(v: Option<Vec<char>>) -> Option<String> {
    v.map(|c| c.into_iter().collect())
}

#[test]
fn encode_image_bytes_as_data_uri() {
    assert_eq!(encode_image_to_data_uri("a.png", b"hello"), "data:image/png;base64,aGVsbG8=");
    assert_eq!(encode_image_to_data_uri("/x/photo.JPG", b""), "data:image/jpeg;base64,");
    assert_eq!(encode_image_to_data_uri("scan.tif", b"ab"), "data:image/tiff;base64,YWI=");
    assert_eq!(encode_image_to_data_uri("noext", b"abc"), "data:image/png;base64,YWJj");
}

#[test]
fn encoded_image_parses_back() {
    let uri = encode_image_to_data_uri("pic.webp", &[0u8, 255, 16, 32]);
    let (mime, data) = parse_data_uri(&uri).unwrap();
    assert_eq!(mime, "image/webp");
    assert_eq!(data, "AP8QIA==");
    assert_eq!(format_data_uri(&mime, &data), uri);
}

#[test]
fn mime_types_by_extension() {
    assert_eq!(image_mime_type("a.jpeg"), "image/jpeg");
    assert_eq!(image_mime_type("a.Png"), "image/png");
    assert_eq!(image_mime_type("a.GIF"), "image/gif");
    assert_eq!(image_mime_type("a.bmp"), "image/bmp");
    assert_eq!(image_mime_type("a.tiff"), "image/tiff");
    assert_eq!(image_mime_type("a.heic"), "image/png");
    assert_eq!(image_mime_type(".hidden"), "image/png");
    assert_eq!(attachment_mime("b.JPG"), "image/jpeg");
    assert_eq!(attachment_mime("b.webp"), "image/webp");
    assert_eq!(attachment_mime("b.gif"), "image/gif");
    assert_eq!(attachment_mime("b.bmp"), "image/png");
    assert_eq!(attachment_mime("dir.d/file"), "image/png");
}

#[test]
fn path_components_as_std_path() {
    for p in ["/a/b.png", "b.tar.gz", "/a/b/", "/a/..", ".hidden", "a/./", "", "/", "x.", "a//b.c"] {
        let std_name = std::path::Path::new(p).file_name().map(|n| n.to_str().unwrap().to_string());
        let std_ext = std::path::Path::new(p).extension().map(|n| n.to_str().unwrap().to_string());
        assert_eq!(text(path_file_name(p)), std_name, "file name of {:?}", p);
        assert_eq!(text(path_extension(p)), std_ext, "extension of {:?}", p);
    }
}

#[test]
fn attachment_sources() {
    assert_eq!(attachment_source("/tmp/qwenimager-clipboard/1.png"), "clipboard");
    assert_eq!(attachment_source("/home/u/pic.png"), "upload");
}

#[test]
fn conversation_titles() {
    assert_eq!(effective_title(""), "新对话");
    assert_eq!(effective_title("Cats"), "Cats");
    assert_eq!(requested_title(None), "新对话");
    assert_eq!(requested_title(Some(String::new())), "");
    assert_eq!(requested_title(Some("Dogs".to_string())), "Dogs");
}

#[test]
fn title_from_first_user_message() {
    let long = "一只在月光下奔跑的狐狸，背景是雪山和森林，画面风格为水彩，细节丰富，色彩柔和";
    let expected: String = long.chars().take(30).collect();
    assert_eq!(title_after_user_message(long, 1), Some(expected));
    assert_eq!(title_after_user_message("short", 1), Some("short".to_string()));
    assert_eq!(title_after_user_message("second", 2), None);
    assert_eq!(title_after_user_message("x", 0), None);
}

#[test]
fn empty_first_prompt_keeps_the_title() {
    assert_eq!(title_after_user_message("", 1), None);
    assert_eq!(title_after_user_message(" ", 1), Some(" ".to_string()));
}

#[test]
fn user_message_counting() {
    assert!(counts_user_messages("user", &Some("hi".to_string())));
    assert!(!counts_user_messages("user", &None));
    assert!(!counts_user_messages("assistant", &Some("hi".to_string())));
}

#[test]
fn paging_defaults() {
    assert_eq!(page_bounds(None, None), (50, 0));
    assert_eq!(page_bounds(Some(10), Some(20)), (10, 20));
}

#[test]
fn missing_conversation() {
    assert_eq!(conversation_not_found("c1").message(), "Not found: Conversation not found: c1");
    assert!(require_rows(1, "c1").is_ok());
    let e = require_rows(0, "c1").err().unwrap();
    assert_eq!(e.kind(), "notFound");
}

#[test]
fn database_path() {
    assert_eq!(resolve_db_path("/data/app"), "/data/app/qwenimager.db");
    assert_eq!(resolve_db_path("/data/app/"), "/data/app/qwenimager.db");
    assert_eq!(resolve_db_path(""), "qwenimager.db");
    for dir in ["/data/app", "/data/app/", "", "rel"] {
        let joined = std::path::Path::new(dir).join("qwenimager.db");
        assert_eq!(resolve_db_path(dir), joined.to_str().unwrap());
    }
}

#[test]
fn clock_is_after_epoch() {
    let t = now_ts();
    assert!(t > 1_600_000_000);
}
