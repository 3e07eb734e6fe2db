use stowage::file_utils::{
    classify_content, extract_extension, get_extension_fallback, is_allowed_text_ext,
    is_content_type_allowed, is_content_type_prefix_allowed, is_content_type_specific_allowed,
    is_mime_allowed, is_mime_category_allowed, is_mime_specific_allowed,
    validate_and_get_final_path,
};
use stowage::hashing::content_hash;
use stowage::strutil::{decimal_string, file_stem_of};
use stowage::worker::extension_from_content_type;

#[test]
fn test_extract_extension() {
    assert_eq!(extract_extension("photo.JPG"), "jpg");
    assert_eq!(extract_extension("noext"), "noext");
    assert_eq!(extract_extension("trailing."), "");
    assert_eq!(extract_extension("archive.tar.gz"), "gz");
    assert_eq!(extract_extension(""), "");
}

#[test]
fn test_allowed_text_extensions() {
    assert!(is_allowed_text_ext("json"));
    assert!(is_allowed_text_ext("xml"));
    assert!(is_allowed_text_ext("rss"));
    assert!(!is_allowed_text_ext("exe"));
    assert!(!is_allowed_text_ext("JSON"));
}

#[test]
fn test_extension_fallback() {
    assert_eq!(get_extension_fallback("notes.JSON"), Some("json".to_string()));
    assert_eq!(get_extension_fallback("feed.rss"), Some("rss".to_string()));
    assert_eq!(get_extension_fallback("binary.bin"), None);
}

#[test]
fn test_mime_lists() {
    assert!(is_mime_category_allowed("audio/mpeg"));
    assert!(is_mime_category_allowed("video/mp4"));
    assert!(is_mime_category_allowed("image/png"));
    assert!(is_mime_category_allowed("application/octet-stream"));
    assert!(!is_mime_category_allowed("text/html"));
    assert!(is_mime_specific_allowed("application/json"));
    assert!(is_mime_specific_allowed("text/xml"));
    assert!(!is_mime_specific_allowed("application/pdf"));
    assert!(is_mime_allowed("application/rss+xml"));
    assert!(!is_mime_allowed("text/plain"));
    assert!(is_content_type_prefix_allowed("image/webp"));
    assert!(!is_content_type_prefix_allowed("application/json"));
    assert!(is_content_type_specific_allowed("application/xml"));
    assert!(!is_content_type_specific_allowed("application/pdf"));
    assert!(is_content_type_allowed("audio/mpeg"));
    assert!(!is_content_type_allowed("application/vnd.microsoft.portable-executable"));
}

#[test]
fn test_classify_json_accepted_by_declared_extension() {
    let body = b"{\"key\": \"value\"}".to_vec();
    let r = classify_content(&body, "example.json");
    assert_eq!(r, Ok("json".to_string()));
}

#[test]
fn test_classify_sniffed_mp3_accepted() {
    let mut body = vec![0x49, 0x44, 0x33];
    body.extend_from_slice(&[0u8; 32]);
    let r = classify_content(&body, "song.mp3");
    assert_eq!(r, Ok("mp3".to_string()));
}

#[test]
fn test_classify_disguised_mp3_rejected() {
    // executable magic bytes declared as audio
    let mut body = vec![0x4D, 0x5A];
    body.extend_from_slice(&[0u8; 32]);
    let r = classify_content(&body, "fake.mp3");
    assert_eq!(r, Err("File type not allowed".to_string()));
}

#[test]
fn test_classify_exe_rejected() {
    let mut body = vec![0x4D, 0x5A];
    body.extend_from_slice(&[0u8; 32]);
    let r = classify_content(&body, "example.exe");
    assert_eq!(r, Err("File type not allowed".to_string()));
}

#[test]
fn test_classify_sniffed_signature_overrides_declared_name() {
    // PNG bytes declared as JSON come out canonical png
    let mut body = vec![0x89, 0x50, 0x4E, 0x47, 0x0D, 0x0A, 0x1A, 0x0A];
    body.extend_from_slice(&[0u8; 16]);
    let r = classify_content(&body, "picture.json");
    assert_eq!(r, Ok("png".to_string()));
}

#[test]
fn test_classify_disallowed_declared_type_rejected() {
    let body = b"hello world".to_vec();
    let r = classify_content(&body, "notes.txt");
    assert_eq!(r, Err("Invalid file type: text/plain".to_string()));
}

#[test]
fn test_classify_unknown_content_rejected() {
    // an accepted coarse category but no signature and no text fallback
    let body = b"just bytes".to_vec();
    let r = classify_content(&body, "mystery.bin");
    assert_eq!(r, Err("Unknown or unsupported file type".to_string()));
}

#[test]
fn test_classify_default_name_without_extension_rejected() {
    // the fallback name used when a client declares none: no signature and
    // no usable declared extension
    let body = b"{\"a\": 1}".to_vec();
    let r = classify_content(&body, "file");
    assert_eq!(r, Err("Unknown or unsupported file type".to_string()));
}

#[test]
fn test_classify_xml_signature_overrides_rss_name() {
    let body = b"<?xml version=\"1.0\"?><rss></rss>".to_vec();
    let r = classify_content(&body, "feed.rss");
    assert_eq!(r, Ok("xml".to_string()));
}

#[test]
fn test_validate_and_get_final_path() {
    let body = b"{\"a\": 1}".to_vec();
    let r = validate_and_get_final_path(&body, "media/abcd", "upload.json");
    assert_eq!(r, Ok("media/abcd.json".to_string()));
    let mut exe = vec![0x4D, 0x5A];
    exe.extend_from_slice(&[0u8; 8]);
    let r2 = validate_and_get_final_path(&exe, "media/abcd", "fake.mp3");
    assert_eq!(r2, Err("File type not allowed".to_string()));
}

#[test]
fn test_extension_from_content_type() {
    assert_eq!(extension_from_content_type("application/json"), "json");
    assert_eq!(extension_from_content_type("audio/mpeg; charset=binary"), "mpeg");
    assert_eq!(extension_from_content_type("text/xml;charset=utf-8"), "xml");
    assert_eq!(extension_from_content_type("noslash"), "");
    assert_eq!(extension_from_content_type("a/b/c"), "b");
}

#[test]
fn test_content_hash_known_vectors() {
    assert_eq!(
        content_hash(b"hello"),
        "2cf24dba5fb0a30e26e83b2ac5b9e29e1b161e5c1fa7425e73043362938b9824"
    );
    assert_eq!(
        content_hash(b""),
        "e3b0c44298fc1c149afbf4c8996fb92427ae41e4649b934ca495991b7852b855"
    );
    assert_ne!(content_hash(b"a"), content_hash(b"b"));
}

#[test]
fn test_decimal_string() {
    assert_eq!(decimal_string(0), "0");
    assert_eq!(decimal_string(7), "7");
    assert_eq!(decimal_string(404), "404");
    assert_eq!(decimal_string(4294967295), "4294967295");
}

#[test]
fn test_file_stem_of() {
    assert_eq!(file_stem_of("media/abc.json"), "abc");
    assert_eq!(file_stem_of("abc"), "abc");
    assert_eq!(file_stem_of("a/b/c.tar.gz"), "c.tar");
    assert_eq!(file_stem_of(".hidden"), ".hidden");
    assert_eq!(file_stem_of("media/x."), "x");
}
