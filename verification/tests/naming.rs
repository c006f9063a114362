use skybox::naming::{
    classify_extension, default_extension_for_file_type, extension_for_lowercase_mime,
    extension_from_mime_type, extension_from_name, fallback_file_name_for_non_media,
    generated_file_name, generated_file_name_with_token, mime_type_from_extension,
    normalize_extension, optional_sanitized_name, sanitize_file_name,
    upload_media_kind_for_extension, UploadMediaKind,
};

#[test]
fn sanitize_replaces_reserved_characters() {
    assert_eq!(sanitize_file_name("a/b\\c:d*e?f\"g<h>i|j"), "a_b_c_d_e_f_g_h_i_j");
    assert_eq!(sanitize_file_name("  report.pdf  "), "report.pdf");
}

#[test]
fn sanitize_of_nothing_is_upload_bin() {
    assert_eq!(sanitize_file_name(""), "upload.bin");
    assert_eq!(sanitize_file_name(" \t "), "upload.bin");
}

#[test]
fn optional_name_of_nothing_is_none() {
    assert_eq!(optional_sanitized_name("   "), None);
    assert_eq!(optional_sanitized_name(""), None);
    assert_eq!(optional_sanitized_name(" a:b "), Some("a_b".to_string()));
}

#[test]
fn upload_kinds_follow_the_table() {
    assert_eq!(upload_media_kind_for_extension(Some("jpg")), UploadMediaKind::Photo);
    assert_eq!(upload_media_kind_for_extension(Some("bmp")), UploadMediaKind::Photo);
    assert_eq!(upload_media_kind_for_extension(Some("heic")), UploadMediaKind::Document);
    assert_eq!(upload_media_kind_for_extension(Some("mkv")), UploadMediaKind::Video);
    assert_eq!(upload_media_kind_for_extension(Some("opus")), UploadMediaKind::Audio);
    assert_eq!(upload_media_kind_for_extension(Some("pdf")), UploadMediaKind::Document);
    assert_eq!(upload_media_kind_for_extension(Some("JPG")), UploadMediaKind::Document);
    assert_eq!(upload_media_kind_for_extension(None), UploadMediaKind::Document);
}

#[test]
fn mime_types_follow_the_table() {
    assert_eq!(mime_type_from_extension(Some("jpg")), Some("image/jpeg"));
    assert_eq!(mime_type_from_extension(Some("jpeg")), Some("image/jpeg"));
    assert_eq!(mime_type_from_extension(Some("m4v")), Some("video/mp4"));
    assert_eq!(mime_type_from_extension(Some("mkv")), Some("video/x-matroska"));
    assert_eq!(mime_type_from_extension(Some("wma")), Some("audio/x-ms-wma"));
    assert_eq!(mime_type_from_extension(Some("pdf")), None);
    assert_eq!(mime_type_from_extension(None), None);
}

#[test]
fn classification_follows_the_table() {
    let image = classify_extension(Some("heic"));
    assert_eq!((image.category, image.file_type), ("Images", "image"));
    let video = classify_extension(Some("flv"));
    assert_eq!((video.category, video.file_type), ("Videos", "video"));
    let audio = classify_extension(Some("flac"));
    assert_eq!((audio.category, audio.file_type), ("Audios", "audio"));
    let text = classify_extension(Some("toml"));
    assert_eq!((text.category, text.file_type), ("Notes", "text"));
    let document = classify_extension(Some("pdf"));
    assert_eq!((document.category, document.file_type), ("Documents", "document"));
    let none = classify_extension(None);
    assert_eq!((none.category, none.file_type), ("Documents", "document"));
}

#[test]
fn extensions_follow_mime_types() {
    assert_eq!(extension_from_mime_type(Some("image/jpeg")), Some("jpg".to_string()));
    assert_eq!(extension_from_mime_type(Some("  Audio/OGG ")), Some("ogg".to_string()));
    assert_eq!(extension_from_mime_type(Some("image/heif")), Some("heic".to_string()));
    assert_eq!(
        extension_from_mime_type(Some(
            "application/vnd.openxmlformats-officedocument.wordprocessingml.document"
        )),
        Some("docx".to_string())
    );
    assert_eq!(extension_from_mime_type(Some("application/x-unknown")), None);
    assert_eq!(extension_from_mime_type(None), None);
}

#[test]
fn mime_table_is_exact_on_lower_case() {
    assert_eq!(extension_for_lowercase_mime("audio/x-wav"), Some("wav".to_string()));
    assert_eq!(extension_for_lowercase_mime("Audio/x-wav"), None);
    assert_eq!(extension_for_lowercase_mime("application/octet-stream"), Some("bin".to_string()));
}

#[test]
fn default_extensions_follow_the_kind() {
    assert_eq!(default_extension_for_file_type("image"), "jpg");
    assert_eq!(default_extension_for_file_type("video"), "mp4");
    assert_eq!(default_extension_for_file_type("audio"), "mp3");
    assert_eq!(default_extension_for_file_type("text"), "txt");
    assert_eq!(default_extension_for_file_type("document"), "bin");
    assert_eq!(default_extension_for_file_type("folder"), "bin");
}

#[test]
fn extensions_are_normalized() {
    assert_eq!(normalize_extension(Some(" .JPG ")), Some("jpg".to_string()));
    assert_eq!(normalize_extension(Some("..Tar")), Some("tar".to_string()));
    assert_eq!(normalize_extension(Some(" . ")), None);
    assert_eq!(normalize_extension(Some(". X")), Some(" x".to_string()));
    assert_eq!(normalize_extension(Some(".")), None);
    assert_eq!(normalize_extension(Some("")), None);
    assert_eq!(normalize_extension(None), None);
}

#[test]
fn extension_of_a_name_needs_stem_and_suffix() {
    assert_eq!(extension_from_name("report.PDF"), Some("pdf".to_string()));
    assert_eq!(extension_from_name("archive.tar.gz"), Some("gz".to_string()));
    assert_eq!(extension_from_name("report"), None);
    assert_eq!(extension_from_name("report."), None);
    assert_eq!(extension_from_name(".bashrc"), None);
    assert_eq!(extension_from_name("a. txt "), Some("txt".to_string()));
}

#[test]
fn generated_names_hold_kind_token_and_extension() {
    assert_eq!(
        generated_file_name_with_token("image", "abc", Some("jpg")),
        "image_abc.jpg"
    );
    assert_eq!(generated_file_name_with_token("video", "abc", Some("")), "video_abc");
    assert_eq!(generated_file_name_with_token("audio", "abc", None), "audio_abc");
}

#[test]
fn fresh_names_hold_a_token_of_32_hex_digits() {
    let name = generated_file_name("image", Some("jpg"));
    assert!(name.starts_with("image_"));
    assert!(name.ends_with(".jpg"));
    let token = &name["image_".len()..name.len() - ".jpg".len()];
    assert_eq!(token.len(), 32);
    assert!(token.chars().all(|c| c.is_ascii_digit() || ('a'..='f').contains(&c)));
    assert_ne!(name, generated_file_name("image", Some("jpg")));
}

#[test]
fn fallback_names_follow_the_kind() {
    assert_eq!(fallback_file_name_for_non_media(7, "text", Some("txt")), "note_7.txt");
    assert_eq!(fallback_file_name_for_non_media(7, "document", Some("bin")), "message_7.bin");
    assert_eq!(fallback_file_name_for_non_media(-12, "document", None), "message_-12");
    assert_eq!(fallback_file_name_for_non_media(0, "text", Some("")), "note_0");
    assert_eq!(
        fallback_file_name_for_non_media(i32::MIN, "text", None),
        format!("note_{}", i32::MIN)
    );
    assert_eq!(
        fallback_file_name_for_non_media(i32::MAX, "x", None),
        format!("message_{}", i32::MAX)
    );
}
