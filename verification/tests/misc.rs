use skybox::account::{
    compute_expires_at, flood_wait_decision, flood_wait_seconds_in, get_api_hash, get_api_id,
    parse_api_credentials, parse_flood_wait_seconds, request_delay_ms, retry_decision,
    RetryDecision,
};
use skybox::files::file_name_matches;
use skybox::model::TelegramMessage;
use skybox::remote::{RemoteMedia, RemoteMessage};
use skybox::store::Database;
use skybox::thumbs::{
    data_url_base64_payload, decode_data_url_image_bytes, detect_thumbnail_extension,
    thumbnail_file_name,
};
use skybox::upload::{
    build_upload_file_name, build_upload_file_name_with_token, record_upload,
    upload_listing_name, uploaded_message,
};

#[test]
fn credentials_are_read_from_texts() {
    let credentials = parse_api_credentials("12345", "abcdef").unwrap();
    assert_eq!(get_api_id(&credentials), 12345);
    assert_eq!(get_api_hash(&credentials), "abcdef");
    assert_eq!(parse_api_credentials("12 345", "abcdef"), None);
    assert_eq!(parse_api_credentials("", "abcdef"), None);
    assert_eq!(parse_api_credentials("12345", ""), None);
    assert_eq!(parse_api_credentials("99999999999", "abcdef"), None);
}

#[test]
fn token_expiry() {
    assert_eq!(compute_expires_at(0, 1000), 1119);
    assert_eq!(compute_expires_at(-5, 1000), 1119);
    assert_eq!(compute_expires_at(30, 1000), 1029);
    assert_eq!(compute_expires_at(21599, 1000), 22598);
    assert_eq!(compute_expires_at(21600, 1000), 21599);
    assert_eq!(compute_expires_at(1_700_000_000, 1_600_000_000), 1_699_999_999);
    assert_eq!(compute_expires_at(1_600_000_000, 1_700_000_000), 1_600_000_000);
    assert_eq!(compute_expires_at(21600, 21600), 21600);
    assert_eq!(compute_expires_at(5, -10), -6);
}

#[test]
fn flood_wait_is_read_from_the_message() {
    assert_eq!(parse_flood_wait_seconds("all fine"), None);
    assert_eq!(parse_flood_wait_seconds("rpc error 420: FLOOD_WAIT (value: 17)"), Some(17));
    assert_eq!(parse_flood_wait_seconds("flood_wait_23"), Some(23));
    assert_eq!(parse_flood_wait_seconds("FLOOD_WAIT_0"), Some(1));
    assert_eq!(parse_flood_wait_seconds("FLOOD_WAIT"), Some(1));
    assert_eq!(parse_flood_wait_seconds("FLOOD_WAIT_x5"), Some(1));
    assert_eq!(parse_flood_wait_seconds("FLOOD_WAIT_9 value: none"), Some(9));
    assert_eq!(parse_flood_wait_seconds("value: 3, FLOOD_WAIT_9"), Some(3));
    assert_eq!(parse_flood_wait_seconds("Value: abc 12 13 FLOOD_WAIT"), Some(12));
    assert_eq!(
        parse_flood_wait_seconds("FLOOD_WAIT_99999999999999999999999"),
        Some(1)
    );
    assert_eq!(
        parse_flood_wait_seconds("FLOOD_WAIT_18446744073709551615"),
        Some(u64::MAX)
    );
    assert_eq!(flood_wait_seconds_in("flood_wait_23"), None);
    assert_eq!(flood_wait_seconds_in("FLOOD_WAIT_23"), Some(23));
}

#[test]
fn retries_end_after_three() {
    assert_eq!(flood_wait_decision("timeout", 0), RetryDecision::GiveUp);
    assert_eq!(
        flood_wait_decision("FLOOD_WAIT_5", 0),
        RetryDecision::RetryAfter { seconds: 5 }
    );
    assert_eq!(
        flood_wait_decision("FLOOD_WAIT_5", 2),
        RetryDecision::RetryAfter { seconds: 5 }
    );
    assert_eq!(flood_wait_decision("FLOOD_WAIT_5", 3), RetryDecision::GiveUp);
    assert_eq!(retry_decision(Some(0), 1), RetryDecision::RetryAfter { seconds: 1 });
    assert_eq!(retry_decision(None, 0), RetryDecision::GiveUp);
}

#[test]
fn requests_keep_their_distance() {
    assert_eq!(request_delay_ms(0), 350);
    assert_eq!(request_delay_ms(349), 1);
    assert_eq!(request_delay_ms(350), 0);
    assert_eq!(request_delay_ms(u64::MAX), 0);
}

#[test]
fn search_finds_names_that_hold_the_pattern() {
    assert!(file_name_matches("report.pdf", "port"));
    assert!(file_name_matches("report.pdf", ""));
    assert!(file_name_matches("report.pdf", "report.pdf"));
    assert!(!file_name_matches("report.pdf", "Port"));
    assert!(!file_name_matches("report.pdf", "report.pdfx"));
    assert!(!file_name_matches("", "x"));
    assert!(file_name_matches("", ""));
}

#[test]
fn thumbnail_formats_are_told_by_their_first_bytes() {
    assert_eq!(detect_thumbnail_extension(&[0xFF, 0xD8, 0xFF, 0xE0]), "jpg");
    assert_eq!(
        detect_thumbnail_extension(&[0x89, 0x50, 0x4E, 0x47, 0x0D, 0x0A, 0x1A, 0x0A, 0]),
        "png"
    );
    assert_eq!(detect_thumbnail_extension(b"RIFF\x00\x00\x00\x00WEBPVP8 "), "webp");
    assert_eq!(detect_thumbnail_extension(b"RIFF\x00\x00\x00\x00WAVE"), "jpg");
    assert_eq!(detect_thumbnail_extension(b"GIF89a"), "gif");
    assert_eq!(detect_thumbnail_extension(b"GIF"), "jpg");
    assert_eq!(detect_thumbnail_extension(&[]), "jpg");
    assert_eq!(detect_thumbnail_extension(&[0x89, 0x50, 0x4E, 0x47]), "jpg");
    assert_eq!(thumbnail_file_name(42, 7, b"GIF89a"), "42_7.gif");
    assert_eq!(thumbnail_file_name(-1, 7, &[]), "-1_7.jpg");
}

#[test]
fn data_urls_are_decoded() {
    assert_eq!(
        data_url_base64_payload("data:image/png;base64,aGk="),
        Some("aGk=".to_string())
    );
    assert_eq!(data_url_base64_payload("data:image/png,aGk="), None);
    assert_eq!(
        decode_data_url_image_bytes("data:image/png;base64,aGVsbG8="),
        Some(b"hello".to_vec())
    );
    assert_eq!(decode_data_url_image_bytes("data:image/png;base64,"), Some(vec![]));
    assert_eq!(decode_data_url_image_bytes("data:image/png;base64,a"), None);
    assert_eq!(decode_data_url_image_bytes("data:image/png;base64,aGVsbG8"), None);
    assert_eq!(decode_data_url_image_bytes("no marker"), None);
    assert_eq!(
        decode_data_url_image_bytes("xbase64,base64,aGk="),
        None
    );
}

#[test]
fn upload_names_hold_stem_token_and_extension() {
    assert_eq!(
        build_upload_file_name_with_token("Holiday Photo.JPG", "t0"),
        ("Holiday Photo_t0.jpg".to_string(), Some("jpg".to_string()))
    );
    assert_eq!(
        build_upload_file_name_with_token("archive.tar.gz", "t0"),
        ("archive.tar_t0.gz".to_string(), Some("gz".to_string()))
    );
    assert_eq!(
        build_upload_file_name_with_token("notes", "t0"),
        ("notes_t0".to_string(), None)
    );
    assert_eq!(
        build_upload_file_name_with_token(".bashrc", "t0"),
        (".bashrc_t0".to_string(), None)
    );
    assert_eq!(
        build_upload_file_name_with_token("name.", "t0"),
        ("name_t0".to_string(), None)
    );
    assert_eq!(
        build_upload_file_name_with_token("", "t0"),
        ("upload_t0.bin".to_string(), Some("bin".to_string()))
    );
    assert_eq!(
        build_upload_file_name_with_token("a/b:c.txt", "t0"),
        ("a_b_c_t0.txt".to_string(), Some("txt".to_string()))
    );
    assert_eq!(
        build_upload_file_name_with_token(" .txt", "t0"),
        (".txt_t0".to_string(), None)
    );
    assert_eq!(
        build_upload_file_name_with_token("..", "t0"),
        ("upload_t0".to_string(), None)
    );
    assert_eq!(
        build_upload_file_name_with_token(".", "t0"),
        ("upload_t0".to_string(), None)
    );
    assert_eq!(
        build_upload_file_name_with_token("  . x", "t0"),
        (". x_t0".to_string(), None)
    );
    assert_eq!(
        build_upload_file_name_with_token("a. X", "t0"),
        ("a_t0.x".to_string(), Some("x".to_string()))
    );
}

#[test]
fn upload_names_agree_with_paths() {
    for name in ["a.b", "a", ".a", "a.", "a.b.c", "..", ".", "...", "a..b", ". ", "x .y", " a.B "] {
        let path = std::path::Path::new(name.trim());
        let stem = path
            .file_stem()
            .and_then(|s| s.to_str())
            .map(str::trim)
            .filter(|s| !s.is_empty())
            .map(|s| s.to_string())
            .unwrap_or_else(|| "upload".to_string());
        let extension = path
            .extension()
            .and_then(|e| e.to_str())
            .map(|e| e.trim().trim_start_matches('.').to_lowercase())
            .filter(|e| !e.is_empty());
        let expected = match &extension {
            Some(e) => format!("{}_t.{}", stem, e),
            None => format!("{}_t", stem),
        };
        assert_eq!(
            build_upload_file_name_with_token(name, "t"),
            (expected, extension),
            "name {:?}",
            name
        );
    }
}

#[test]
fn fresh_upload_names_differ() {
    let (first, extension) = build_upload_file_name("clip.mp4");
    let (second, _) = build_upload_file_name("clip.mp4");
    assert_eq!(extension, Some("mp4".to_string()));
    assert!(first.starts_with("clip_") && first.ends_with(".mp4"));
    assert_eq!(first.len(), "clip_".len() + 32 + ".mp4".len());
    assert_ne!(first, second);
}

fn sent(id: i32, text: &str) -> RemoteMessage {
    RemoteMessage {
        id,
        date: 0,
        text: text.to_string(),
        media: RemoteMedia::Absent,
        file_reference: "sent".to_string(),
    }
}

#[test]
fn uploaded_message_without_snapshot_is_made_of_the_upload() {
    let message = uploaded_message(
        None,
        &sent(11, ""),
        42,
        "2024-05-01T10:00:00+00:00".to_string(),
        "clip_t0.mp4",
        2048,
    );
    assert_eq!(
        message,
        TelegramMessage {
            message_id: 11,
            chat_id: 42,
            category: "Videos".to_string(),
            filename: Some("clip_t0.mp4".to_string()),
            extension: Some("mp4".to_string()),
            mime_type: Some("video/mp4".to_string()),
            timestamp: "2024-05-01T10:00:00+00:00".to_string(),
            size: Some(2048),
            text: None,
            thumbnail: None,
            file_reference: "upload:42:11".to_string(),
        }
    );
}

#[test]
fn uploaded_message_keeps_what_the_snapshot_knows() {
    let made = TelegramMessage {
        message_id: 11,
        chat_id: 42,
        category: "Documents".to_string(),
        filename: Some("other".to_string()),
        extension: None,
        mime_type: Some("application/x-special".to_string()),
        timestamp: "stamp".to_string(),
        size: Some(5),
        text: Some("hi".to_string()),
        thumbnail: None,
        file_reference: "doc".to_string(),
    };
    let message = uploaded_message(
        Some(made),
        &sent(11, "hi"),
        42,
        "unused".to_string(),
        "song_t0.ogg",
        2048,
    );
    assert_eq!(message.category, "Audios");
    assert_eq!(message.filename, Some("song_t0.ogg".to_string()));
    assert_eq!(message.extension, Some("ogg".to_string()));
    assert_eq!(message.mime_type, Some("application/x-special".to_string()));
    assert_eq!(message.size, Some(5));
    assert_eq!(message.timestamp, "stamp");
    assert_eq!(message.file_reference, "doc");
}

#[test]
fn recording_an_upload_caches_it_and_writes_its_node() {
    let mut db = Database::new();
    let message = uploaded_message(
        None,
        &sent(11, "caption"),
        42,
        "2024-05-01T10:00:00+00:00".to_string(),
        "report.pdf",
        2048,
    );
    assert_eq!(message.filename, Some("report.pdf".to_string()));
    assert_eq!(message.extension, Some("pdf".to_string()));
    assert_eq!(message.category, "Documents");
    record_upload(&mut db, "42", &message, Some("/Home/Work"), "report.pdf", "now");
    assert_eq!(db.messages, vec![message.clone()]);
    let node = db.items.last().unwrap();
    assert_eq!(node.file_name, "report.pdf");
    assert_eq!(node.file_type, "document");
    assert_eq!(node.file_path, "/Home/Work");
    assert_eq!(node.file_unique_id, "msg_42_11");
    assert_eq!(node.file_caption, Some("caption".to_string()));
    assert_eq!(db.items.len(), 7);
    record_upload(&mut db, "42", &message, None, "report.pdf", "now");
    assert_eq!(db.items.len(), 7);
    assert_eq!(db.items.last().unwrap().file_path, "/Home/Documents");
    assert_eq!(db.items.last().unwrap().file_name, "report.pdf");
}

#[test]
fn an_upload_is_listed_under_the_safe_form_of_its_name() {
    assert_eq!(
        upload_listing_name(" Holiday Photo.JPG "),
        ("Holiday Photo.JPG".to_string(), Some("jpg".to_string()))
    );
    assert_eq!(upload_listing_name("a/b:c.txt"), ("a_b_c.txt".to_string(), Some("txt".to_string())));
    assert_eq!(upload_listing_name("   "), ("upload.bin".to_string(), Some("bin".to_string())));
    assert_eq!(upload_listing_name("notes"), ("notes".to_string(), None));

    let mut db = Database::new();
    let message = uploaded_message(None, &sent(5, ""), 42, "stamp".to_string(), "a/b:c.txt", 1);
    record_upload(&mut db, "42", &message, Some("/Home"), "a/b:c.txt", "now");
    assert_eq!(db.items.last().unwrap().file_name, "a_b_c.txt");
    // the copy that is sent has a token in its name, the listing has none
    let (sent_as, _) = build_upload_file_name("a/b:c.txt");
    assert_ne!(sent_as, "a_b_c.txt");
    assert!(sent_as.starts_with("a_b_c_") && sent_as.ends_with(".txt"));
}
