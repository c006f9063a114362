use skybox::model::{TelegramMessage, TelegramSavedItem};
use skybox::store::Database;

fn message(chat_id: i64, id: i32, category: &str, timestamp: &str) -> TelegramMessage {
    TelegramMessage {
        message_id: id,
        chat_id,
        category: category.to_string(),
        filename: None,
        extension: None,
        mime_type: None,
        timestamp: timestamp.to_string(),
        size: None,
        text: None,
        thumbnail: None,
        file_reference: String::new(),
    }
}

fn ids(messages: &[TelegramMessage]) -> Vec<i32> {
    messages.iter().map(|m| m.message_id).collect()
}

fn sample() -> Database {
    let mut db = Database::new();
    db.save_telegram_message(&message(1, 5, "Images", "2024-01-02"));
    db.save_telegram_message(&message(1, 9, "Notes", "2024-01-01"));
    db.save_telegram_message(&message(2, 7, "Images", "2024-01-03"));
    db.save_telegram_message(&message(1, 2, "Images", "2024-01-04"));
    db
}

#[test]
fn saving_a_message_replaces_the_one_with_its_key() {
    let mut db = sample();
    db.save_telegram_message(&message(1, 5, "Videos", "2024-02-01"));
    assert_eq!(db.messages.len(), 4);
    assert_eq!(db.get_telegram_message(1, 5).unwrap().category, "Videos");
    assert_eq!(db.messages.last().unwrap().message_id, 5);
    assert_eq!(db.get_telegram_message(2, 5), None);
    assert_eq!(db.get_telegram_message(2, 7).unwrap().timestamp, "2024-01-03");
}

#[test]
fn messages_are_listed_newest_first() {
    let db = sample();
    assert_eq!(ids(&db.get_all_indexed_messages(1)), vec![9, 5, 2]);
    assert_eq!(ids(&db.get_all_indexed_messages(2)), vec![7]);
    assert!(db.get_all_indexed_messages(3).is_empty());
    assert_eq!(db.count_all_indexed_messages(1), 3);
    assert_eq!(db.count_all_indexed_messages(3), 0);
}

#[test]
fn messages_of_a_category_are_listed_latest_first() {
    let db = sample();
    assert_eq!(ids(&db.get_indexed_messages_by_category(1, "Images")), vec![2, 5]);
    assert_eq!(ids(&db.get_indexed_messages_by_category(1, "Notes")), vec![9]);
    assert!(db.get_indexed_messages_by_category(1, "images").is_empty());
}

#[test]
fn oldest_and_newest_ids() {
    let db = sample();
    assert_eq!(db.get_oldest_indexed_message_id(1), 2);
    assert_eq!(db.get_last_indexed_message_id(1), 9);
    assert_eq!(db.get_oldest_indexed_message_id(2), 7);
    assert_eq!(db.get_oldest_indexed_message_id(3), 0);
    assert_eq!(db.get_last_indexed_message_id(3), 0);
    let mut negative = Database::new();
    negative.save_telegram_message(&message(1, -4, "Notes", ""));
    negative.save_telegram_message(&message(1, -9, "Notes", ""));
    assert_eq!(negative.get_oldest_indexed_message_id(1), -9);
    assert_eq!(negative.get_last_indexed_message_id(1), -4);
}

#[test]
fn thumbnails_and_sizes_are_patched() {
    let mut db = sample();
    db.update_telegram_message_thumbnail(1, 5, "/cache/1_5.jpg");
    db.update_telegram_message_size(1, 5, 77);
    db.update_telegram_message_size(1, 9, -3);
    assert_eq!(
        db.get_telegram_message(1, 5).unwrap().thumbnail,
        Some("/cache/1_5.jpg".to_string())
    );
    assert_eq!(db.get_telegram_message(1, 5).unwrap().size, Some(77));
    assert_eq!(db.get_telegram_message(1, 9).unwrap().size, Some(0));
    assert_eq!(db.get_telegram_message(1, 2).unwrap().thumbnail, None);
    assert_eq!(db.get_telegram_message(2, 7).unwrap().size, None);
    assert_eq!(ids(&db.messages), vec![5, 9, 7, 2]);
}

#[test]
fn messages_are_deleted_by_id() {
    let mut db = sample();
    db.delete_telegram_messages_by_ids(1, &vec![5, 7, 0, -2, 5]);
    assert_eq!(ids(&db.messages), vec![9, 7, 2]);
    db.delete_telegram_messages_by_ids(1, &vec![]);
    assert_eq!(db.messages.len(), 3);
}

#[test]
fn settings_hold_the_last_value_written() {
    let mut db = Database::new();
    assert_eq!(db.get_setting("theme"), None);
    db.set_setting("theme", "dark");
    db.set_setting("lang", "en");
    db.set_setting("theme", "light");
    assert_eq!(db.get_setting("theme"), Some("light".to_string()));
    assert_eq!(db.get_setting("lang"), Some("en".to_string()));
    assert_eq!(db.get_setting("Theme"), None);
    assert_eq!(db.settings.len(), 2);
}

fn item(key: &str, id: i32, kind: &str) -> TelegramSavedItem {
    TelegramSavedItem {
        chat_id: 1,
        message_id: id,
        thumbnail: None,
        file_type: kind.to_string(),
        file_unique_id: key.to_string(),
        file_size: 0,
        file_name: key.to_string(),
        file_caption: None,
        file_path: "/Home".to_string(),
        recycle_origin_path: None,
        modified_date: "then".to_string(),
        owner_id: "1".to_string(),
    }
}

#[test]
fn item_thumbnails_and_sizes_are_patched() {
    let mut db = Database::new();
    db.upsert_telegram_saved_item(&item("a", 5, "image"));
    db.upsert_telegram_saved_item(&item("b", 5, "document"));
    db.upsert_telegram_saved_item(&item("c", 5, "folder"));
    db.upsert_telegram_saved_item(&item("d", 6, "image"));
    db.update_telegram_saved_item_thumbnail("1", 5, "thumb");
    db.update_telegram_saved_item_size("1", 5, 99);
    db.update_telegram_saved_item_size("1", 6, -1);
    let thumbs: Vec<Option<&str>> = db.items.iter().map(|i| i.thumbnail.as_deref()).collect();
    assert_eq!(thumbs, vec![Some("thumb"), Some("thumb"), None, None]);
    let sizes: Vec<i64> = db.items.iter().map(|i| i.file_size).collect();
    assert_eq!(sizes, vec![99, 0, 0, 0]);
    assert!(db.items.iter().all(|i| i.modified_date == "then"));
    db.update_telegram_saved_item_thumbnail("2", 5, "other");
    assert_eq!(db.items[0].thumbnail, Some("thumb".to_string()));
}

#[test]
fn upsert_replaces_by_key_and_moves_the_row_to_the_end() {
    let mut db = Database::new();
    db.upsert_telegram_saved_item(&item("a", 1, "image"));
    db.upsert_telegram_saved_item(&item("b", 2, "image"));
    db.upsert_telegram_saved_item(&item("a", 3, "video"));
    let keys: Vec<&str> = db.items.iter().map(|i| i.file_unique_id.as_str()).collect();
    assert_eq!(keys, vec!["b", "a"]);
    assert_eq!(db.items[1].message_id, 3);
    assert!(db.telegram_saved_file_exists_by_message_id("1", 3));
    assert!(!db.telegram_saved_file_exists_by_message_id("1", 1));
    assert!(!db.telegram_saved_folder_exists("1", "/Home", "a"));
}

#[test]
fn images_without_a_size_are_found_newest_first() {
    let mut db = Database::new();
    db.upsert_telegram_saved_item(&item("a", 4, "image"));
    db.upsert_telegram_saved_item(&item("b", 9, "image"));
    db.upsert_telegram_saved_item(&item("c", 7, "video"));
    db.upsert_telegram_saved_item(&item("d", 4, "image"));
    db.upsert_telegram_saved_item(&item("e", 0, "image"));
    db.upsert_telegram_saved_item(&item("f", 6, "image"));
    db.upsert_telegram_saved_item(&item("g", 8, "image"));
    db.update_telegram_saved_item_size("1", 8, 120);
    assert_eq!(db.get_telegram_saved_zero_sized_image_message_ids("1", 10), vec![9, 6, 4]);
    assert_eq!(db.get_telegram_saved_zero_sized_image_message_ids("1", 2), vec![9, 6]);
    assert_eq!(db.get_telegram_saved_zero_sized_image_message_ids("1", 0), vec![9]);
    assert_eq!(db.get_telegram_saved_zero_sized_image_message_ids("1", -5), vec![9]);
    assert!(db.get_telegram_saved_zero_sized_image_message_ids("2", 10).is_empty());
}
