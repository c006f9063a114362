use skybox::backfill::{
    begin_backfill, begin_index, clamp_batch_size, finish_backfill, finish_index, index_next,
    index_remote_message, BackfillStep, CategoryCounts,
};
use skybox::ingest::{saved_item_from_message, upsert_saved_item_from_message};
use skybox::model::TelegramMessage;
use skybox::remote::{
    categorize_message, estimate_photo_message_size, RemoteDocument, RemoteMedia, RemoteMessage,
    RemotePhotoSize,
};
use skybox::store::Database;
use skybox::sync::{
    backfill_complete_key, backfill_cursor_key, hydrate_saved_items_from_cached_messages,
    index_is_stale, rebuild_saved_items_index,
};

const OWNER: &str = "42";
const CHAT: i64 = 42;
const NOW: &str = "2024-05-01T10:00:00+00:00";

fn text_message(id: i32, text: &str) -> RemoteMessage {
    RemoteMessage {
        id,
        date: 1_700_000_000,
        text: text.to_string(),
        media: RemoteMedia::Absent,
        file_reference: "{\"type\":\"text\"}".to_string(),
    }
}

fn document_message(id: i32, name: &str, mime: Option<&str>) -> RemoteMessage {
    RemoteMessage {
        id,
        date: 1_700_000_000,
        text: String::new(),
        media: RemoteMedia::Document {
            document: Some(RemoteDocument {
                name: name.to_string(),
                mime_type: mime.map(|m| m.to_string()),
                size: 1234,
            }),
        },
        file_reference: "doc".to_string(),
    }
}

fn photo_message(id: i32, sizes: Vec<RemotePhotoSize>) -> RemoteMessage {
    RemoteMessage {
        id,
        date: 0,
        text: "caption".to_string(),
        media: RemoteMedia::Photo { sizes: Some(sizes) },
        file_reference: "photo".to_string(),
    }
}

fn empty_message(id: i32) -> RemoteMessage {
    text_message(id, "")
}

fn cached(id: i32) -> TelegramMessage {
    TelegramMessage {
        message_id: id,
        chat_id: CHAT,
        category: "Documents".to_string(),
        filename: Some("report.pdf".to_string()),
        extension: None,
        mime_type: None,
        timestamp: "2024-04-30T09:00:00+00:00".to_string(),
        size: Some(10),
        text: Some("the report".to_string()),
        thumbnail: Some("thumb".to_string()),
        file_reference: "ref".to_string(),
    }
}

#[test]
fn batch_size_is_clamped() {
    assert_eq!(clamp_batch_size(None), 50);
    assert_eq!(clamp_batch_size(Some(0)), 1);
    assert_eq!(clamp_batch_size(Some(-7)), 1);
    assert_eq!(clamp_batch_size(Some(1)), 1);
    assert_eq!(clamp_batch_size(Some(120)), 120);
    assert_eq!(clamp_batch_size(Some(200)), 200);
    assert_eq!(clamp_batch_size(Some(201)), 200);
    assert_eq!(clamp_batch_size(Some(i32::MAX)), 200);
    assert_eq!(clamp_batch_size(Some(i32::MIN)), 1);
}

#[test]
fn setting_keys_hold_the_chat() {
    assert_eq!(backfill_cursor_key(42), "tg_saved_backfill_cursor_42");
    assert_eq!(backfill_complete_key(-7), "tg_saved_backfill_complete_-7");
    assert_eq!(
        backfill_cursor_key(i64::MIN),
        format!("tg_saved_backfill_cursor_{}", i64::MIN)
    );
    assert_eq!(
        backfill_cursor_key(i64::MAX),
        format!("tg_saved_backfill_cursor_{}", i64::MAX)
    );
}

#[test]
fn photo_snapshot() {
    let msg = photo_message(
        5,
        vec![RemotePhotoSize::Size { size: 100 }, RemotePhotoSize::Size { size: 900 }],
    );
    let snap = categorize_message(&msg, CHAT).unwrap();
    assert_eq!(snap.message_id, 5);
    assert_eq!(snap.chat_id, CHAT);
    assert_eq!(snap.category, "Images");
    assert_eq!(snap.filename, Some("photo_5.jpg".to_string()));
    assert_eq!(snap.extension, Some("jpg".to_string()));
    assert_eq!(snap.mime_type, Some("image/jpeg".to_string()));
    assert_eq!(snap.timestamp, "1970-01-01T00:00:00+00:00");
    assert_eq!(snap.size, Some(900));
    assert_eq!(snap.text, Some("caption".to_string()));
    assert_eq!(snap.thumbnail, None);
    assert_eq!(snap.file_reference, "photo");
}

#[test]
fn document_snapshot() {
    let snap = categorize_message(&document_message(6, " My:Song.MP3 ", None), CHAT).unwrap();
    assert_eq!(snap.category, "Audios");
    assert_eq!(snap.filename, Some("My_Song.MP3".to_string()));
    assert_eq!(snap.extension, Some("mp3".to_string()));
    assert_eq!(snap.mime_type, None);
    assert_eq!(snap.size, Some(1234));
    assert_eq!(snap.text, None);
    assert_eq!(snap.timestamp, "2023-11-14T22:13:20+00:00");

    let by_mime = categorize_message(&document_message(7, "clip", Some("video/mp4")), CHAT)
        .unwrap();
    assert_eq!(by_mime.category, "Videos");
    assert_eq!(by_mime.extension, Some("mp4".to_string()));
    assert_eq!(by_mime.filename, Some("clip".to_string()));

    let unknown = categorize_message(&document_message(8, "", Some("x/y")), CHAT).unwrap();
    assert_eq!(unknown.category, "Documents");
    assert_eq!(unknown.extension, None);
    assert_eq!(unknown.filename, None);
}

#[test]
fn text_snapshot() {
    let snap = categorize_message(&text_message(9, "héllo"), CHAT).unwrap();
    assert_eq!(snap.category, "Notes");
    assert_eq!(snap.filename, None);
    assert_eq!(snap.extension, Some("txt".to_string()));
    assert_eq!(snap.mime_type, Some("text/plain".to_string()));
    assert_eq!(snap.size, Some(6));
    assert_eq!(snap.text, Some("héllo".to_string()));
}

#[test]
fn messages_with_nothing_to_hold_have_no_snapshot() {
    assert_eq!(categorize_message(&empty_message(1), CHAT), None);
    let no_photo = RemoteMessage {
        media: RemoteMedia::Photo { sizes: None },
        ..text_message(2, "caption")
    };
    assert_eq!(categorize_message(&no_photo, CHAT), None);
    let no_document = RemoteMessage {
        media: RemoteMedia::Document { document: None },
        ..text_message(3, "caption")
    };
    assert_eq!(categorize_message(&no_document, CHAT), None);
}

#[test]
fn photo_sizes_are_estimated() {
    assert_eq!(estimate_photo_message_size(&vec![]), None);
    assert_eq!(estimate_photo_message_size(&vec![RemotePhotoSize::Empty]), None);
    assert_eq!(estimate_photo_message_size(&vec![RemotePhotoSize::Size { size: -4 }]), None);
    assert_eq!(
        estimate_photo_message_size(&vec![
            RemotePhotoSize::Size { size: 10 },
            RemotePhotoSize::Progressive { sizes: vec![5, 70, 30] },
            RemotePhotoSize::Cached { bytes: vec![0; 20] },
        ]),
        Some(70)
    );
    assert_eq!(
        estimate_photo_message_size(&vec![RemotePhotoSize::Progressive { sizes: vec![-5, -1] }]),
        None
    );
    assert_eq!(
        estimate_photo_message_size(&vec![RemotePhotoSize::Progressive { sizes: vec![] }]),
        None
    );
    assert_eq!(
        estimate_photo_message_size(&vec![RemotePhotoSize::Stripped { bytes: vec![1, 2, 3] }]),
        Some(625)
    );
    assert_eq!(
        estimate_photo_message_size(&vec![RemotePhotoSize::Stripped { bytes: vec![2, 2, 3] }]),
        Some(3)
    );
    assert_eq!(
        estimate_photo_message_size(&vec![RemotePhotoSize::Stripped { bytes: vec![1, 2] }]),
        Some(2)
    );
    assert_eq!(
        estimate_photo_message_size(&vec![RemotePhotoSize::Outline { bytes: vec![9; 4] }]),
        Some(4)
    );
}

#[test]
fn derived_item_of_a_named_document() {
    let item = saved_item_from_message(OWNER, &cached(7), None, None, "unused");
    assert_eq!(item.chat_id, CHAT);
    assert_eq!(item.message_id, 7);
    assert_eq!(item.file_unique_id, "msg_42_7");
    assert_eq!(item.file_name, "report.pdf");
    assert_eq!(item.file_type, "document");
    assert_eq!(item.file_path, "/Home/Documents");
    assert_eq!(item.file_size, 10);
    assert_eq!(item.file_caption, Some("the report".to_string()));
    assert_eq!(item.thumbnail, Some("thumb".to_string()));
    assert_eq!(item.modified_date, "2024-04-30T09:00:00+00:00");
    assert_eq!(item.recycle_origin_path, None);
    assert_eq!(item.owner_id, OWNER);
}

#[test]
fn derived_item_resolves_the_extension_in_order() {
    let mut msg = cached(7);
    msg.filename = Some("clip.mp4".to_string());
    msg.mime_type = Some("audio/ogg".to_string());
    msg.extension = Some(".PNG".to_string());
    let explicit = saved_item_from_message(OWNER, &msg, None, None, "t");
    assert_eq!(explicit.file_type, "image");
    assert_eq!(explicit.file_path, "/Home/Images");
    msg.extension = None;
    let by_name = saved_item_from_message(OWNER, &msg, None, None, "t");
    assert_eq!(by_name.file_type, "video");
    msg.filename = Some("clip".to_string());
    let by_mime = saved_item_from_message(OWNER, &msg, None, None, "t");
    assert_eq!(by_mime.file_type, "audio");
    assert_eq!(by_mime.file_name, "clip");
    msg.mime_type = None;
    let by_default = saved_item_from_message(OWNER, &msg, None, None, "t");
    assert_eq!(by_default.file_type, "document");
    assert_eq!(by_default.file_path, "/Home/Documents");
}

#[test]
fn derived_item_makes_up_names() {
    let mut msg = cached(7);
    msg.filename = None;
    msg.size = None;
    msg.mime_type = Some("image/png".to_string());
    let image = saved_item_from_message(OWNER, &msg, None, None, "abc");
    assert_eq!(image.file_name, "image_abc.png");
    assert_eq!(image.file_size, 0);
    msg.mime_type = Some("text/plain".to_string());
    let note = saved_item_from_message(OWNER, &msg, None, None, "abc");
    assert_eq!(note.file_name, "note_7.txt");
    msg.mime_type = None;
    let other = saved_item_from_message(OWNER, &msg, None, None, "abc");
    assert_eq!(other.file_name, "message_7.bin");
    msg.filename = Some("   ".to_string());
    let blank = saved_item_from_message(OWNER, &msg, None, None, "abc");
    assert_eq!(blank.file_name, "message_7.bin");
}

#[test]
fn derived_item_prefers_what_the_caller_names() {
    let item = saved_item_from_message(
        OWNER,
        &cached(7),
        Some("Work\\2024/"),
        Some(" mine?.txt "),
        "t",
    );
    assert_eq!(item.file_path, "/Home/Work/2024");
    assert_eq!(item.file_name, "mine_.txt");
    assert_eq!(item.file_type, "text");
    let blank = saved_item_from_message(OWNER, &cached(7), None, Some("  "), "t");
    assert_eq!(blank.file_name, "report.pdf");
}

#[test]
fn derived_key_of_a_message_without_positive_id() {
    let mut msg = cached(0);
    msg.chat_id = -5;
    let item = saved_item_from_message(OWNER, &msg, None, None, "t");
    assert_eq!(item.file_unique_id, "msg__5_2024_04_30T09_00_00_00_00_report_pdf");
}

#[test]
fn deriving_twice_keeps_one_row_and_its_key() {
    let mut db = Database::new();
    let mut msg = cached(7);
    msg.filename = None;
    msg.mime_type = Some("image/png".to_string());
    upsert_saved_item_from_message(&mut db, OWNER, &msg, None, None);
    let first = db.items[0].clone();
    upsert_saved_item_from_message(&mut db, OWNER, &msg, None, None);
    assert_eq!(db.items.len(), 1);
    assert_eq!(db.items[0].file_unique_id, first.file_unique_id);
    assert_eq!(db.items[0].file_unique_id, "msg_42_7");
    // the row that stood for the message keeps its made-up name
    assert_eq!(db.items[0], first);
    assert!(first.file_name.starts_with("image_") && first.file_name.ends_with(".png"));
    assert_eq!(first.file_name.len(), "image_".len() + 32 + ".png".len());
    upsert_saved_item_from_message(&mut db, OWNER, &cached(7), None, None);
    upsert_saved_item_from_message(&mut db, OWNER, &cached(7), None, None);
    assert_eq!(db.items.len(), 1);
    assert_eq!(db.items[0].file_name, "report.pdf");
}

#[test]
fn deriving_again_keeps_a_made_up_name_only_where_it_still_fits() {
    let mut db = Database::new();
    let mut msg = cached(7);
    msg.filename = None;
    msg.mime_type = Some("image/png".to_string());
    upsert_saved_item_from_message(&mut db, OWNER, &msg, None, None);
    let first = db.items[0].clone();
    // another message gets a name of its own
    let mut other = cached(8);
    other.filename = None;
    other.mime_type = Some("image/png".to_string());
    upsert_saved_item_from_message(&mut db, OWNER, &other, None, None);
    assert_ne!(db.items[1].file_name, first.file_name);
    // the message turns out to be a video: the name is made up anew
    msg.mime_type = Some("video/mp4".to_string());
    upsert_saved_item_from_message(&mut db, OWNER, &msg, None, None);
    let again = db.items.last().unwrap().clone();
    assert_eq!(again.file_unique_id, first.file_unique_id);
    assert!(again.file_name.starts_with("video_") && again.file_name.ends_with(".mp4"));
    // a name that a user gave is no made-up name and gives way
    db.rename_telegram_saved_file_by_message_id(OWNER, 7, "mine.mp4", NOW);
    upsert_saved_item_from_message(&mut db, OWNER, &msg, None, None);
    let last = db.items.last().unwrap();
    assert!(last.file_name.starts_with("video_") && last.file_name != again.file_name);
    assert_eq!(db.items.len(), 2);
}

#[test]
fn hydration_runs_only_when_stale() {
    let mut db = Database::new();
    assert!(!index_is_stale(&db, OWNER, CHAT));
    assert_eq!(hydrate_saved_items_from_cached_messages(&mut db, OWNER, CHAT), 0);
    db.save_telegram_message(&cached(3));
    db.save_telegram_message(&cached(9));
    db.save_telegram_message(&TelegramMessage { chat_id: 1, ..cached(1) });
    assert!(index_is_stale(&db, OWNER, CHAT));
    assert_eq!(hydrate_saved_items_from_cached_messages(&mut db, OWNER, CHAT), 2);
    let keys: Vec<&str> = db.items.iter().map(|i| i.file_unique_id.as_str()).collect();
    assert_eq!(keys, vec!["msg_42_9", "msg_42_3"]);
    assert_eq!(db.get_setting("tg_saved_backfill_cursor_42"), Some("3".to_string()));
    assert_eq!(db.get_setting("tg_saved_backfill_complete_42"), Some("0".to_string()));
    assert!(!index_is_stale(&db, OWNER, CHAT));
    let before = db.clone();
    assert_eq!(hydrate_saved_items_from_cached_messages(&mut db, OWNER, CHAT), 0);
    assert_eq!(db, before);
}

#[test]
fn staleness_sees_unnamed_files_and_names_without_extension() {
    let mut db = Database::new();
    db.save_telegram_message(&cached(3));
    upsert_saved_item_from_message(&mut db, OWNER, &cached(3), None, None);
    assert!(!index_is_stale(&db, OWNER, CHAT));
    db.items[0].file_name = "  ".to_string();
    assert_eq!(db.count_telegram_saved_items_with_empty_name(OWNER), 1);
    assert!(index_is_stale(&db, OWNER, CHAT));
    db.items[0].file_name = "Image_0123".to_string();
    db.items[0].file_type = "image".to_string();
    assert_eq!(db.count_telegram_saved_items_with_empty_name(OWNER), 0);
    assert_eq!(db.count_telegram_generated_names_missing_extension(OWNER), 1);
    assert!(index_is_stale(&db, OWNER, CHAT));
    db.items[0].file_name = "image_0123.jpg".to_string();
    assert_eq!(db.count_telegram_generated_names_missing_extension(OWNER), 0);
    db.items[0].file_name = "video_0123".to_string();
    assert_eq!(db.count_telegram_generated_names_missing_extension(OWNER), 0);
    db.items[0].file_name = "holiday".to_string();
    assert_eq!(db.count_telegram_generated_names_missing_extension(OWNER), 0);
    assert_eq!(db.count_telegram_saved_non_folder_items(OWNER), 1);
    assert_eq!(db.count_telegram_saved_non_folder_items("99"), 0);
    assert!(!index_is_stale(&db, OWNER, CHAT));
}

#[test]
fn rebuild_reports_count_and_oldest_message() {
    let mut db = Database::new();
    let report = rebuild_saved_items_index(&mut db, OWNER, CHAT, NOW);
    assert_eq!((report.upserted_count, report.oldest_message_id), (0, 0));
    assert_eq!(db.items.len(), 6);
    db.save_telegram_message(&cached(30));
    db.save_telegram_message(&cached(12));
    let report = rebuild_saved_items_index(&mut db, OWNER, CHAT, NOW);
    assert_eq!((report.upserted_count, report.oldest_message_id), (2, 12));
    assert_eq!(db.items.len(), 8);
    let report = rebuild_saved_items_index(&mut db, OWNER, CHAT, NOW);
    assert_eq!((report.upserted_count, report.oldest_message_id), (0, 12));
}

#[test]
fn indexing_a_message_caches_it_and_writes_its_node() {
    let mut db = Database::new();
    let snap = index_remote_message(&mut db, OWNER, CHAT, &text_message(4, "hello")).unwrap();
    assert_eq!(db.messages, vec![snap]);
    assert_eq!(db.items.len(), 1);
    assert_eq!(db.items[0].file_name, "note_4.txt");
    assert_eq!(db.items[0].file_path, "/Home/Notes");
    assert_eq!(index_remote_message(&mut db, OWNER, CHAT, &empty_message(5)), None);
    assert_eq!(db.items.len(), 1);
    assert_eq!(db.messages.len(), 1);
}

#[test]
fn backfill_walks_towards_older_messages() {
    let mut db = Database::new();
    let step = begin_backfill(&mut db, OWNER, CHAT, Some(2), NOW);
    assert_eq!(step, BackfillStep::Fetch { offset_id: 0, limit: 2 });
    assert_eq!(db.items.len(), 6);

    let page = vec![text_message(50, "a"), empty_message(49)];
    let report = finish_backfill(&mut db, OWNER, CHAT, 0, 2, &page);
    assert_eq!(report.fetched_count, 2);
    assert_eq!(report.indexed_count, 1);
    assert!(report.has_more);
    assert!(!report.is_complete);
    assert_eq!(report.next_offset_id, Some(49));
    assert_eq!(db.get_setting("tg_saved_backfill_cursor_42"), Some("49".to_string()));
    assert_eq!(db.get_setting("tg_saved_backfill_complete_42"), Some("0".to_string()));

    let step = begin_backfill(&mut db, OWNER, CHAT, Some(2), NOW);
    assert_eq!(step, BackfillStep::Fetch { offset_id: 49, limit: 2 });
    let page = vec![document_message(40, "x.pdf", None)];
    let report = finish_backfill(&mut db, OWNER, CHAT, 49, 2, &page);
    assert_eq!(report.fetched_count, 1);
    assert_eq!(report.indexed_count, 1);
    assert!(!report.has_more);
    assert!(report.is_complete);
    assert_eq!(report.next_offset_id, Some(40));
    assert_eq!(db.get_setting("tg_saved_backfill_cursor_42"), Some("40".to_string()));
    assert_eq!(db.get_setting("tg_saved_backfill_complete_42"), Some("1".to_string()));

    let before = db.clone();
    let step = begin_backfill(&mut db, OWNER, CHAT, Some(2), NOW);
    assert_eq!(step, BackfillStep::Complete);
    assert_eq!(db.settings, before.settings);
    assert_eq!(db.messages, before.messages);
}

#[test]
fn backfill_cursor_never_grows() {
    let mut db = Database::new();
    db.set_setting("tg_saved_backfill_cursor_42", "30");
    let pages = vec![
        vec![text_message(29, "a"), text_message(25, "b")],
        vec![text_message(27, "late")],
        vec![],
        vec![text_message(3, "c"), text_message(4, "d")],
    ];
    let mut last = 30;
    for page in pages {
        let start = match begin_backfill(&mut db, OWNER, CHAT, Some(2), NOW) {
            BackfillStep::Fetch { offset_id, .. } => offset_id,
            BackfillStep::Complete => {
                db.set_setting("tg_saved_backfill_complete_42", "0");
                last
            }
        };
        assert_eq!(start, last);
        finish_backfill(&mut db, OWNER, CHAT, start, 2, &page);
        let cursor: i32 = db
            .get_setting("tg_saved_backfill_cursor_42")
            .unwrap()
            .parse()
            .unwrap();
        assert!(cursor <= last);
        last = cursor;
    }
    assert_eq!(last, 3);
}

#[test]
fn ids_that_are_not_positive_leave_the_cursor_alone() {
    let mut db = Database::new();
    db.set_setting("tg_saved_backfill_cursor_42", "10");
    let page = vec![text_message(0, "none"), text_message(50, "newer"), text_message(-3, "odd")];
    let report = finish_backfill(&mut db, OWNER, CHAT, 10, 3, &page);
    assert_eq!(db.get_setting("tg_saved_backfill_cursor_42"), Some("10".to_string()));
    assert_eq!(report.next_offset_id, Some(10));
    let page = vec![text_message(0, "none"), text_message(7, "older")];
    let report = finish_backfill(&mut db, OWNER, CHAT, 10, 3, &page);
    assert_eq!(db.get_setting("tg_saved_backfill_cursor_42"), Some("7".to_string()));
    assert_eq!(report.next_offset_id, Some(7));
    assert!(report.is_complete);
}

#[test]
fn backfill_starts_below_the_oldest_cached_message_where_no_cursor_is_stored() {
    let mut db = Database::new();
    db.save_telegram_message(&cached(80));
    db.save_telegram_message(&cached(70));
    db.set_setting("tg_saved_backfill_cursor_42", "not a number");
    assert_eq!(
        begin_backfill(&mut db, OWNER, CHAT, None, NOW),
        BackfillStep::Fetch { offset_id: 70, limit: 50 }
    );
    db.set_setting("tg_saved_backfill_cursor_42", "-4");
    assert_eq!(
        begin_backfill(&mut db, OWNER, CHAT, Some(500), NOW),
        BackfillStep::Fetch { offset_id: 70, limit: 200 }
    );
}

#[test]
fn an_empty_page_completes_the_backfill_and_keeps_the_cursor() {
    let mut db = Database::new();
    db.set_setting("tg_saved_backfill_cursor_42", "30");
    let report = finish_backfill(&mut db, OWNER, CHAT, 30, 5, &vec![]);
    assert_eq!(report.fetched_count, 0);
    assert!(report.is_complete);
    assert_eq!(report.next_offset_id, Some(30));
    assert_eq!(db.get_setting("tg_saved_backfill_cursor_42"), Some("30".to_string()));
    assert_eq!(db.get_setting("tg_saved_backfill_complete_42"), Some("1".to_string()));
    let report = finish_backfill(&mut db, OWNER, CHAT, 0, 5, &vec![]);
    assert_eq!(report.next_offset_id, None);
}

#[test]
fn first_index_run_walks_the_whole_history() {
    let mut db = Database::new();
    let mut run = begin_index(&mut db, OWNER, CHAT, NOW);
    assert!(run.started_from_empty_db);
    assert_eq!(run.last_id, 0);
    let history = vec![
        text_message(9, "n"),
        empty_message(8),
        document_message(7, "a.mp3", None),
        photo_message(6, vec![]),
    ];
    for message in &history {
        assert!(index_next(&mut db, OWNER, CHAT, &mut run, message));
    }
    let report = finish_index(&mut db, CHAT, &run);
    assert_eq!(report.total_new_messages, 3);
    assert!(report.started_from_empty_db);
    assert_eq!(
        report.categories,
        CategoryCounts { images: 1, videos: 0, audios: 1, documents: 0, notes: 1, other: 0 }
    );
    assert_eq!(db.get_setting("tg_saved_backfill_complete_42"), Some("1".to_string()));
    assert_eq!(db.get_setting("tg_saved_backfill_cursor_42"), Some("6".to_string()));
    assert_eq!(db.messages.len(), 3);
}

#[test]
fn later_index_runs_stop_at_what_the_cache_knows() {
    let mut db = Database::new();
    db.save_telegram_message(&cached(7));
    upsert_saved_item_from_message(&mut db, OWNER, &cached(7), None, None);
    let mut run = begin_index(&mut db, OWNER, CHAT, NOW);
    assert!(!run.started_from_empty_db);
    assert_eq!(run.last_id, 7);
    assert!(index_next(&mut db, OWNER, CHAT, &mut run, &text_message(9, "new")));
    assert!(index_next(&mut db, OWNER, CHAT, &mut run, &empty_message(8)));
    let before = db.clone();
    assert!(!index_next(&mut db, OWNER, CHAT, &mut run, &text_message(7, "old")));
    assert_eq!(db, before);
    let report = finish_index(&mut db, CHAT, &run);
    assert_eq!(report.total_new_messages, 1);
    assert!(!report.started_from_empty_db);
    assert_eq!(db.get_setting("tg_saved_backfill_complete_42"), None);
    assert_eq!(run.min_indexed_id, 9);
}
