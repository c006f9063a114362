use skybox::ingest::upsert_saved_item_from_message;
use skybox::engine::create_saved_folder;
use skybox::listing::{list_saved_items, list_saved_items_page};
use skybox::model::{TelegramMessage, TelegramSavedItem};
use skybox::store::Database;

const OWNER: &str = "42";
const NOW: &str = "2024-05-01T10:00:00+00:00";

fn put_file(db: &mut Database, id: i32, name: &str, path: &str) {
    let msg = TelegramMessage {
        message_id: id,
        chat_id: 42,
        category: "Documents".to_string(),
        filename: Some(name.to_string()),
        extension: None,
        mime_type: None,
        timestamp: "2024-04-30T09:00:00+00:00".to_string(),
        size: Some(10),
        text: None,
        thumbnail: None,
        file_reference: "ref".to_string(),
    };
    upsert_saved_item_from_message(db, OWNER, &msg, Some(path), None);
}

fn names(items: &[TelegramSavedItem]) -> Vec<&str> {
    items.iter().map(|item| item.file_name.as_str()).collect()
}

fn sample() -> Database {
    let mut db = Database::new();
    put_file(&mut db, 3, "c.txt", "/Home/Work");
    create_saved_folder(&mut db, OWNER, "/Home/Work", "zeta", NOW).unwrap();
    put_file(&mut db, 9, "a.txt", "/Home/Work");
    create_saved_folder(&mut db, OWNER, "/Home/Work", "Alpha", NOW).unwrap();
    put_file(&mut db, 5, "b.txt", "/Home/Work");
    create_saved_folder(&mut db, OWNER, "/Home/Work", "beta", NOW).unwrap();
    put_file(&mut db, 1, "elsewhere.txt", "/Home/Other");
    db
}

#[test]
fn listing_shows_folders_first_then_files_newest_first() {
    let mut db = sample();
    let listed = list_saved_items(&mut db, OWNER, "/Home/Work", NOW);
    assert_eq!(names(&listed), vec!["Alpha", "beta", "zeta", "a.txt", "b.txt", "c.txt"]);
}

#[test]
fn listing_compares_names_without_regard_to_ascii_case() {
    let mut db = Database::new();
    for name in ["b", "C", "a", "B", "1", "Z", "éb", "Éa"] {
        create_saved_folder(&mut db, OWNER, "/Home/Work", name, NOW).unwrap();
    }
    let listed = db.get_telegram_saved_items_by_path(OWNER, "/Home/Work");
    // names that differ in ASCII case alone keep the order in which they were
    // written; other letters are compared as they are
    assert_eq!(names(&listed), vec!["1", "a", "b", "B", "C", "Z", "Éa", "éb"]);
}

#[test]
fn folders_whose_names_differ_outside_ascii_letters_and_digits_have_keys_of_their_own() {
    let mut db = Database::new();
    create_saved_folder(&mut db, OWNER, "/Home/Work", "É", NOW).unwrap();
    create_saved_folder(&mut db, OWNER, "/Home/Work", "_", NOW).unwrap();
    create_saved_folder(&mut db, OWNER, "/Home/Work", "é", NOW).unwrap();
    let listed = db.get_telegram_saved_items_by_path(OWNER, "/Home/Work");
    assert_eq!(names(&listed), vec!["_", "É", "é"]);
    assert_eq!(listed[0].file_unique_id, "folder_2_10_42/Home/Work_");
}

#[test]
fn listing_breaks_ties_of_the_message_by_name() {
    let mut db = Database::new();
    let row = |key: &str, name: &str| TelegramSavedItem {
        chat_id: 42,
        message_id: 7,
        thumbnail: None,
        file_type: "document".to_string(),
        file_unique_id: key.to_string(),
        file_size: 0,
        file_name: name.to_string(),
        file_caption: None,
        file_path: "/Home".to_string(),
        recycle_origin_path: None,
        modified_date: NOW.to_string(),
        owner_id: OWNER.to_string(),
    };
    db.upsert_telegram_saved_item(&row("k1", "beta"));
    db.upsert_telegram_saved_item(&row("k2", "Alpha"));
    let listed = db.get_telegram_saved_items_by_path(OWNER, "/Home");
    assert_eq!(names(&listed), vec!["Alpha", "beta"]);
}

#[test]
fn listing_of_the_root_shows_the_default_folders() {
    let mut db = Database::new();
    let listed = list_saved_items(&mut db, OWNER, "", NOW);
    assert_eq!(
        names(&listed),
        vec!["Audios", "Documents", "Images", "Notes", "Recycle Bin", "Videos"]
    );
    assert!(listed.iter().all(|item| item.file_type == "folder" && item.file_path == "/Home"));
    assert_eq!(listed[4].file_unique_id, "folder_2_5_42/HomeRecycle Bin");
    // a second call finds them and does not double them
    let again = list_saved_items(&mut db, OWNER, "/", NOW);
    assert_eq!(again.len(), 6);
}

#[test]
fn listing_is_per_owner_and_per_directory() {
    let mut db = sample();
    assert_eq!(names(&db.get_telegram_saved_items_by_path(OWNER, "/Home/Other")), vec![
        "elsewhere.txt"
    ]);
    assert!(db.get_telegram_saved_items_by_path("99", "/Home/Work").is_empty());
    assert!(db.get_telegram_saved_items_by_path(OWNER, "/Home/Wor").is_empty());
    let _ = list_saved_items(&mut db, "99", "/Home", NOW);
    assert_eq!(db.get_telegram_saved_items_by_path("99", "/Home").len(), 6);
}

#[test]
fn window_follows_offset_and_limit() {
    let db = sample();
    let all = db.get_telegram_saved_items_by_path(OWNER, "/Home/Work");
    let page = db.get_telegram_saved_items_by_path_paginated(OWNER, "/Home/Work", 1, 3);
    assert_eq!(page, all[1..4].to_vec());
    let rest = db.get_telegram_saved_items_by_path_paginated(OWNER, "/Home/Work", 4, 100);
    assert_eq!(rest, all[4..].to_vec());
    let none = db.get_telegram_saved_items_by_path_paginated(OWNER, "/Home/Work", 6, 3);
    assert!(none.is_empty());
    let beyond = db.get_telegram_saved_items_by_path_paginated(OWNER, "/Home/Work", 60, 3);
    assert!(beyond.is_empty());
    let unlimited = db.get_telegram_saved_items_by_path_paginated(OWNER, "/Home/Work", 2, -1);
    assert_eq!(unlimited, all[2..].to_vec());
    let negative = db.get_telegram_saved_items_by_path_paginated(OWNER, "/Home/Work", -5, 2);
    assert_eq!(negative, all[..2].to_vec());
    let zero = db.get_telegram_saved_items_by_path_paginated(OWNER, "/Home/Work", 0, 0);
    assert!(zero.is_empty());
}

#[test]
fn pages_report_what_follows() {
    let mut db = sample();
    let first = list_saved_items_page(&mut db, OWNER, "/Home/Work", 0, 4, NOW);
    assert_eq!(names(&first.items), vec!["Alpha", "beta", "zeta", "a.txt"]);
    assert!(first.has_more);
    assert_eq!(first.next_offset, 4);
    let second = list_saved_items_page(&mut db, OWNER, "/Home/Work", first.next_offset, 4, NOW);
    assert_eq!(names(&second.items), vec!["b.txt", "c.txt"]);
    assert!(!second.has_more);
    assert_eq!(second.next_offset, 6);
}

#[test]
fn a_page_that_ends_with_the_listing_reports_no_more() {
    let mut db = sample();
    let page = list_saved_items_page(&mut db, OWNER, "/Home/Work", 0, 6, NOW);
    assert_eq!(page.items.len(), 6);
    assert!(!page.has_more);
    let page = list_saved_items_page(&mut db, OWNER, "/Home/Work", 3, 3, NOW);
    assert_eq!(page.items.len(), 3);
    assert!(!page.has_more);
    assert_eq!(page.next_offset, 6);
}

#[test]
fn page_requests_are_clamped() {
    let mut db = sample();
    let page = list_saved_items_page(&mut db, OWNER, "/Home/Work", -3, 0, NOW);
    assert_eq!(names(&page.items), vec!["Alpha"]);
    assert!(page.has_more);
    assert_eq!(page.next_offset, 1);
    let page = list_saved_items_page(&mut db, OWNER, "/Home/Work", 0, 1000, NOW);
    assert_eq!(page.items.len(), 6);
    assert!(!page.has_more);
    let page = list_saved_items_page(&mut db, OWNER, "/Home/Work", 50, 10, NOW);
    assert!(page.items.is_empty());
    assert!(!page.has_more);
    assert_eq!(page.next_offset, 50);
}

#[test]
fn limit_is_at_most_two_hundred() {
    let mut db = Database::new();
    for id in 1..=250 {
        put_file(&mut db, id, &format!("f{}", id), "/Home/Big");
    }
    let page = list_saved_items_page(&mut db, OWNER, "/Home/Big", 0, 1000, NOW);
    assert_eq!(page.items.len(), 200);
    assert!(page.has_more);
    assert_eq!(page.next_offset, 200);
    assert_eq!(page.items[0].message_id, 250);
    let rest = list_saved_items_page(&mut db, OWNER, "/Home/Big", 200, 1000, NOW);
    assert_eq!(rest.items.len(), 50);
    assert!(!rest.has_more);
    assert_eq!(rest.items[49].message_id, 1);
}

#[test]
fn all_pages_together_are_the_listing() {
    let mut db = sample();
    for id in 10..40 {
        put_file(&mut db, id, &format!("file{}.txt", id % 7), "/Home/Work");
    }
    let all = list_saved_items(&mut db, OWNER, "/Home/Work", NOW);
    for size in [1, 2, 5, 7, 36, 100] {
        let mut seen: Vec<TelegramSavedItem> = Vec::new();
        let mut offset = 0;
        let mut pages = 0;
        loop {
            let page = list_saved_items_page(&mut db, OWNER, "/Home/Work", offset, size, NOW);
            seen.extend(page.items.iter().cloned());
            pages += 1;
            assert_eq!(page.has_more, (seen.len() < all.len()), "size {}", size);
            if !page.has_more {
                break;
            }
            offset = page.next_offset;
        }
        assert_eq!(seen, all, "size {}", size);
        assert_eq!(pages, std::cmp::max(1, (all.len() + size as usize - 1) / size as usize));
    }
}

#[test]
fn a_page_far_behind_the_end_is_empty() {
    let mut db = Database::new();
    for id in 1..=3 {
        put_file(&mut db, id, &format!("f{}", id), "/Home/Work");
    }
    for offset in [3, 4, i64::MAX - 200, i64::MAX - 1, i64::MAX] {
        let page = list_saved_items_page(&mut db, OWNER, "/Home/Work", offset, 50, NOW);
        assert!(page.items.is_empty(), "offset {}", offset);
        assert!(!page.has_more);
        assert_eq!(page.next_offset, offset);
    }
    let page = list_saved_items_page(&mut db, OWNER, "/Home/Work", i64::MIN, i64::MAX, NOW);
    assert_eq!(page.items.len(), 3);
    assert_eq!(page.next_offset, 3);
    assert!(!page.has_more);
    let page = list_saved_items_page(&mut db, OWNER, "/Home/Work", 1, i64::MIN, NOW);
    assert_eq!(page.items.len(), 1);
    assert_eq!(page.next_offset, 2);
    assert!(page.has_more);
}
