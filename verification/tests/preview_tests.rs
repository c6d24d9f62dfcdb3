use slingshot::FileData;

fn file_with_extension(ext: &str) -> FileData {
    FileData {
        shortname: format!("sample.{}", ext),
        absolute: format!("/tmp/sample.{}", ext),
        extension: ext.to_owned(),
        icon: "".to_owned(),
        marked_for_deletion: false,
    }
}

#[test]
fn test_preview_of_directory() {
    let mut fd = file_with_extension("");
    fd.shortname = "somedir".to_owned();
    let (text, raw) = fd.as_preview_string(100, &Vec::new());
    assert_eq!(text, "directory");
    assert!(!raw);
}

#[test]
fn test_preview_of_unknown_extension() {
    let fd = file_with_extension("xyz");
    let (text, raw) = fd.as_preview_string(100, &vec![1, 2, 3]);
    assert_eq!(text, "Unsupported file extension");
    assert!(!raw);
}

#[test]
fn test_preview_of_text_file_caps_length() {
    let fd = file_with_extension("txt");
    let content: Vec<u8> = b"hello, world".to_vec();
    let (text, raw) = fd.as_preview_string(5, &content);
    assert_eq!(text, "hello");
    assert!(!raw);
    let (text, _) = fd.as_preview_string(100, &content);
    assert_eq!(text, "hello, world");
}

#[test]
fn test_preview_of_image_encodes_inline() {
    let fd = file_with_extension("png");
    let content: Vec<u8> = b"hello".to_vec();
    let (text, raw) = fd.as_preview_string(100, &content);
    // "hello" encodes to "aGVsbG8=": eight characters, so the size field
    // saturates at zero.
    assert_eq!(text, "\x1b]1337;File=inline=1;size=0:aGVsbG8=\x07");
    assert!(raw);
}

#[test]
fn test_preview_image_size_field() {
    let fd = file_with_extension("jpg");
    // 90 bytes encode to 120 characters, so the size field reads 20.
    let content: Vec<u8> = vec![0u8; 90];
    let (text, raw) = fd.as_preview_string(100, &content);
    assert!(raw);
    assert!(text.starts_with("\x1b]1337;File=inline=1;size=20:"));
    assert!(text.ends_with("\x07"));
    // 90 zero bytes are 30 groups of "AAAA".
    let payload: String = std::iter::repeat("AAAA").take(30).collect();
    assert_eq!(text, format!("\x1b]1337;File=inline=1;size=20:{}\x07", payload));
}
