use skybox::engine::{
    create_saved_folder, ensure_saved_folder_hierarchy, move_saved_item,
    move_saved_item_to_recycle_bin, rename_saved_item, restore_saved_item, ErrorKind,
    SavedItemError,
};
use skybox::ingest::upsert_saved_item_from_message;
use skybox::listing::list_saved_items;
use skybox::model::{TelegramMessage, TelegramSavedItem};
use skybox::removal::{
    apply_permanent_delete, delete_batches, plan_permanent_delete, DeleteTarget,
};
use skybox::remote::{RemoteMedia, RemoteMessage};
use skybox::store::Database;
use skybox::upload::{record_upload, uploaded_message};

const OWNER: &str = "42";
const NOW: &str = "2024-05-01T10:00:00+00:00";
const LATER: &str = "2024-05-02T10:00:00+00:00";

fn message(id: i32, name: &str) -> TelegramMessage {
    TelegramMessage {
        message_id: id,
        chat_id: 42,
        category: "Documents".to_string(),
        filename: Some(name.to_string()),
        extension: None,
        mime_type: None,
        timestamp: "2024-04-30T09:00:00+00:00".to_string(),
        size: Some(10),
        text: None,
        thumbnail: None,
        file_reference: "ref".to_string(),
    }
}

fn put_file(db: &mut Database, id: i32, name: &str, path: &str) {
    let msg = message(id, name);
    db.save_telegram_message(&msg);
    upsert_saved_item_from_message(db, OWNER, &msg, Some(path), None);
}

fn names(items: &[TelegramSavedItem]) -> Vec<String> {
    items.iter().map(|item| item.file_name.clone()).collect()
}

fn file<'a>(db: &'a Database, id: i32) -> &'a TelegramSavedItem {
    db.items
        .iter()
        .find(|item| item.message_id == id && item.file_type != "folder")
        .expect("file row")
}

fn folder<'a>(db: &'a Database, parent: &str, name: &str) -> Option<&'a TelegramSavedItem> {
    db.items
        .iter()
        .find(|item| item.file_type == "folder" && item.file_path == parent && item.file_name == name)
}

#[test]
fn create_folder_writes_a_folder_row() {
    let mut db = Database::new();
    let row = create_saved_folder(&mut db, OWNER, "/Home", " Work ", NOW).unwrap();
    assert_eq!(row.file_name, "Work");
    assert_eq!(row.file_path, "/Home");
    assert_eq!(row.file_type, "folder");
    assert_eq!(row.message_id, 0);
    assert_eq!(row.chat_id, 0);
    assert_eq!(row.file_caption, Some("Work".to_string()));
    assert_eq!(row.file_unique_id, "folder_2_5_42/HomeWork");
    assert_eq!(row.recycle_origin_path, None);
    assert_eq!(folder(&db, "/Home", "Work"), Some(&row));
    // the five category folders, the recycle bin and the new folder
    assert_eq!(db.items.len(), 7);
}

#[test]
fn create_folder_refuses_an_empty_name() {
    let mut db = Database::new();
    let result = create_saved_folder(&mut db, OWNER, "/Home", "   ", NOW);
    assert_eq!(result, Err(SavedItemError::EmptyFolderName));
    assert_eq!(db.items.len(), 0);
}

#[test]
fn create_folder_twice_keeps_one_row() {
    let mut db = Database::new();
    create_saved_folder(&mut db, OWNER, "/Home", "Work", NOW).unwrap();
    create_saved_folder(&mut db, OWNER, "/Home", "Work", LATER).unwrap();
    let rows: Vec<_> = db
        .items
        .iter()
        .filter(|item| item.file_name == "Work")
        .collect();
    assert_eq!(rows.len(), 1);
    assert_eq!(rows[0].modified_date, LATER);
}

#[test]
fn scenario_upload_recycle_restore() {
    let mut db = Database::new();
    create_saved_folder(&mut db, OWNER, "/Home", "Work", NOW).unwrap();
    let sent = RemoteMessage {
        id: 7,
        date: 0,
        text: String::new(),
        media: RemoteMedia::Absent,
        file_reference: String::new(),
    };
    let uploaded = uploaded_message(None, &sent, 42, NOW.to_string(), "report.pdf", 10);
    record_upload(&mut db, OWNER, &uploaded, Some("/Home/Work"), "report.pdf", NOW);

    let listed = list_saved_items(&mut db, OWNER, "/Home/Work", NOW);
    assert_eq!(names(&listed), vec!["report.pdf"]);
    assert_eq!(listed[0].file_type, "document");
    assert_eq!(listed[0].file_path, "/Home/Work");
    assert!(listed.iter().all(|item| item.file_type != "folder"));

    move_saved_item_to_recycle_bin(&mut db, OWNER, "tg://msg/7", LATER).unwrap();
    assert!(list_saved_items(&mut db, OWNER, "/Home/Work", NOW).is_empty());
    let bin = list_saved_items(&mut db, OWNER, "/Home/Recycle Bin", NOW);
    assert_eq!(names(&bin), vec!["report.pdf"]);
    assert_eq!(bin[0].recycle_origin_path, Some("/Home/Work".to_string()));

    restore_saved_item(&mut db, OWNER, "tg://msg/7", LATER).unwrap();
    let back = list_saved_items(&mut db, OWNER, "/Home/Work", NOW);
    assert_eq!(names(&back), vec!["report.pdf"]);
    assert_eq!(back[0].recycle_origin_path, None);
    assert!(list_saved_items(&mut db, OWNER, "/Home/Recycle Bin", NOW).is_empty());
}

#[test]
fn scenario_rename_folder_with_file() {
    let mut db = Database::new();
    create_saved_folder(&mut db, OWNER, "/Home", "Work", NOW).unwrap();
    put_file(&mut db, 7, "report.pdf", "/Home/Work");

    rename_saved_item(&mut db, OWNER, "/Home/Work", "Archive", LATER).unwrap();
    let archive = list_saved_items(&mut db, OWNER, "/Home/Archive", NOW);
    assert_eq!(names(&archive), vec!["report.pdf"]);
    assert!(list_saved_items(&mut db, OWNER, "/Home/Work", NOW).is_empty());
    assert!(folder(&db, "/Home", "Archive").is_some());
    assert!(folder(&db, "/Home", "Work").is_none());
}

#[test]
fn moving_a_folder_takes_its_subtree_along() {
    let mut db = Database::new();
    create_saved_folder(&mut db, OWNER, "/Home", "A", NOW).unwrap();
    create_saved_folder(&mut db, OWNER, "/Home/A", "B", NOW).unwrap();
    put_file(&mut db, 1, "f", "/Home/A/B");
    put_file(&mut db, 2, "g", "/Home/A");
    put_file(&mut db, 3, "h", "/Home/AB");

    move_saved_item(&mut db, OWNER, "/Home/A", "/Home/Z", LATER).unwrap();

    assert_eq!(file(&db, 1).file_path, "/Home/Z/B");
    assert_eq!(file(&db, 1).file_name, "f");
    assert_eq!(file(&db, 2).file_path, "/Home/Z");
    assert_eq!(file(&db, 3).file_path, "/Home/AB");
    assert!(folder(&db, "/Home", "Z").is_some());
    assert!(folder(&db, "/Home/Z", "B").is_some());
    assert!(db
        .items
        .iter()
        .all(|item| item.file_path != "/Home/A" && !item.file_path.starts_with("/Home/A/")));
    assert!(folder(&db, "/Home", "A").is_none());
}

#[test]
fn moving_a_folder_creates_the_folders_on_the_way() {
    let mut db = Database::new();
    create_saved_folder(&mut db, OWNER, "/Home", "A", NOW).unwrap();
    put_file(&mut db, 1, "f", "/Home/A");

    move_saved_item(&mut db, OWNER, "tg://saved/A", "/Home/X/Y/A", LATER).unwrap();

    assert_eq!(file(&db, 1).file_path, "/Home/X/Y/A");
    assert!(folder(&db, "/Home", "X").is_some());
    assert!(folder(&db, "/Home/X", "Y").is_some());
    assert!(folder(&db, "/Home/X/Y", "A").is_some());
    assert!(folder(&db, "/Home", "A").is_none());
    // every directory that holds something is the root or a folder
    for item in db.items.iter() {
        if item.file_path != "/Home" {
            let (parent, name) = skybox::paths::split_saved_parent_and_name(&item.file_path).unwrap();
            assert!(folder(&db, &parent, &name).is_some(), "{}", item.file_path);
        }
    }
}

#[test]
fn moving_a_folder_onto_the_root_or_into_itself_is_refused() {
    let mut db = Database::new();
    create_saved_folder(&mut db, OWNER, "/Home", "A", NOW).unwrap();
    let before = db.items.clone();
    assert_eq!(
        move_saved_item(&mut db, OWNER, "/Home/A", "/Home", LATER),
        Err(SavedItemError::InvalidDestinationPath)
    );
    assert_eq!(
        move_saved_item(&mut db, OWNER, "/Home/A", "/Home/A/B", LATER),
        Err(SavedItemError::MoveIntoOwnChild)
    );
    assert_eq!(move_saved_item(&mut db, OWNER, "/Home/A", "/Home/A/", LATER), Ok(()));
    assert_eq!(
        move_saved_item(&mut db, OWNER, "/Home/B", "/Home/C", LATER),
        Err(SavedItemError::SourceFolderNotFound)
    );
    // a folder path that is its own destination is left as it is, whether
    // the folder is there or not
    assert_eq!(move_saved_item(&mut db, OWNER, "/Home/B", "/Home/B", LATER), Ok(()));
    assert_eq!(move_saved_item(&mut db, OWNER, "/Home/B", "tg://saved/B/", LATER), Ok(()));
    assert_eq!(
        move_saved_item(&mut db, OWNER, "/Home/B", "/Home/B/C", LATER),
        Err(SavedItemError::MoveIntoOwnChild)
    );
    assert_eq!(db.items, before);
}

#[test]
fn the_recycle_bin_itself_is_neither_restored_nor_deleted() {
    let mut db = Database::new();
    create_saved_folder(&mut db, OWNER, "/Home", "Work", NOW).unwrap();
    put_file(&mut db, 1, "f", "/Home/Work");
    put_file(&mut db, 2, "g", "/Home");
    move_saved_item_to_recycle_bin(&mut db, OWNER, "/Home/Work", NOW).unwrap();
    move_saved_item_to_recycle_bin(&mut db, OWNER, "tg://msg/2", NOW).unwrap();
    let before = db.items.clone();
    for path in ["/Home/Recycle Bin", "tg://saved/Recycle Bin/", " /Recycle Bin ", "Recycle Bin"] {
        if path != "Recycle Bin" {
            assert_eq!(
                restore_saved_item(&mut db, OWNER, path, LATER),
                Err(SavedItemError::FolderNotRecycled),
                "{:?}",
                path
            );
        }
    }
    assert_eq!(
        plan_permanent_delete(&db, OWNER, "/Home/Recycle Bin"),
        Err(SavedItemError::FolderNotDeletable)
    );
    assert_eq!(
        plan_permanent_delete(&db, OWNER, "tg://saved/Recycle Bin"),
        Err(SavedItemError::FolderNotDeletable)
    );
    assert_eq!(db.items, before);
    assert!(folder(&db, "/Home", "Recycle Bin").is_some());
    assert_eq!(file(&db, 1).recycle_origin_path, Some("/Home/Work".to_string()));
    assert_eq!(file(&db, 2).recycle_origin_path, Some("/Home".to_string()));
    // what lies in the bin is restored and deleted as before
    assert!(plan_permanent_delete(&db, OWNER, "/Home/Recycle Bin/Work").is_ok());
    assert!(plan_permanent_delete(&db, OWNER, "tg://msg/2").is_ok());
    restore_saved_item(&mut db, OWNER, "/Home/Recycle Bin/Work", LATER).unwrap();
    restore_saved_item(&mut db, OWNER, "tg://msg/2", LATER).unwrap();
    assert_eq!(file(&db, 1).file_path, "/Home/Work");
    assert_eq!(file(&db, 2).file_path, "/Home");
}

#[test]
fn moving_a_file_creates_the_folders_on_the_way() {
    let mut db = Database::new();
    put_file(&mut db, 1, "f", "/Home");
    move_saved_item(&mut db, OWNER, "tg://msg/1", "/Home/X/Y", LATER).unwrap();
    assert_eq!(file(&db, 1).file_path, "/Home/X/Y");
    assert!(folder(&db, "/Home", "X").is_some());
    assert!(folder(&db, "/Home/X", "Y").is_some());
}

#[test]
fn a_created_folder_splits_into_what_its_row_holds() {
    let mut db = Database::new();
    for (parent, name) in [
        ("/Home", "a/b"),
        ("/Home/x/", " c\\d "),
        ("//", "e:f"),
        ("Work /", "plain"),
        ("", " / "),
    ] {
        let row = create_saved_folder(&mut db, OWNER, parent, name, NOW).unwrap();
        assert!(!row.file_name.contains('/') && !row.file_name.contains('\\'));
        let full = format!("{}/{}", row.file_path, row.file_name);
        assert_eq!(
            skybox::paths::split_saved_parent_and_name(&full),
            Some((row.file_path.clone(), row.file_name.clone())),
            "parent {:?}, name {:?}",
            parent,
            name
        );
    }
    assert!(folder(&db, "/Home", "a_b").is_some());
    assert!(folder(&db, "/Home/x", "c_d").is_some());
    assert!(folder(&db, "/Home", "e_f").is_some());
    assert!(folder(&db, "/Home/Work", "plain").is_some());
    assert!(folder(&db, "/Home", "_").is_some());
}

#[test]
fn creating_a_folder_removes_no_other_folder() {
    let mut db = Database::new();
    create_saved_folder(&mut db, OWNER, "/Home", "Work", NOW).unwrap();
    put_file(&mut db, 1, "f", "/Home/Work");
    rename_saved_item(&mut db, OWNER, "/Home/Work", "Archive", LATER).unwrap();
    let before = db.items.clone();
    let longest = before.iter().map(|row| row.file_unique_id.chars().count()).max().unwrap();
    assert_eq!(folder(&db, "/Home", "Archive").unwrap().file_unique_id, "folder_2_5_42/HomeWork");

    // the folder that was renamed away still holds the key of that name:
    // the new folder gets that key made longer than every key there is
    let row = create_saved_folder(&mut db, OWNER, "/Home", "Work", LATER).unwrap();
    assert_eq!(row.file_name, "Work");
    assert_eq!(row.file_path, "/Home");
    assert_eq!(
        row.file_unique_id,
        format!("{:~<width$}", "folder_2_5_42/HomeWork", width = longest + 1)
    );
    assert_eq!(row.file_unique_id.chars().count(), longest + 1);
    assert_eq!(db.items.len(), before.len() + 1);
    assert_eq!(&db.items[..before.len()], &before[..]);
    assert_eq!(db.items.last(), Some(&row));
    assert!(folder(&db, "/Home", "Archive").is_some());
    assert_eq!(file(&db, 1).file_path, "/Home/Archive");

    // the folder is there now and is not written twice
    let again = create_saved_folder(&mut db, OWNER, "/Home", "Work", LATER).unwrap();
    assert_eq!(again, row);
    assert_eq!(db.items.len(), before.len() + 1);
    let mut keys: Vec<&str> = db.items.iter().map(|i| i.file_unique_id.as_str()).collect();
    keys.sort();
    keys.dedup();
    assert_eq!(keys.len(), db.items.len());
}

#[test]
fn restoring_creates_a_folder_whose_key_another_folder_holds() {
    let mut db = Database::new();
    create_saved_folder(&mut db, OWNER, "/Home", "Work", NOW).unwrap();
    put_file(&mut db, 1, "f", "/Home/Work");
    put_file(&mut db, 2, "g", "/Home/Work");
    move_saved_item_to_recycle_bin(&mut db, OWNER, "tg://msg/1", NOW).unwrap();
    rename_saved_item(&mut db, OWNER, "/Home/Work", "Archive", LATER).unwrap();
    let before = db.items.clone();

    // the folder that was renamed still holds the key of `/Home/Work`
    restore_saved_item(&mut db, OWNER, "tg://msg/1", LATER).unwrap();
    assert_eq!(file(&db, 1).file_path, "/Home/Work");
    assert_eq!(file(&db, 1).recycle_origin_path, None);
    let work = folder(&db, "/Home", "Work").unwrap();
    assert!(work.file_unique_id.starts_with("folder_2_5_42/HomeWork~"));
    let archive = folder(&db, "/Home", "Archive").unwrap();
    assert_eq!(archive.file_unique_id, "folder_2_5_42/HomeWork");
    assert_eq!(file(&db, 2).file_path, "/Home/Archive");
    assert_eq!(db.items.len(), before.len() + 1);

    // moving into a directory below it finds the folder and writes the rest
    move_saved_item(&mut db, OWNER, "tg://msg/2", "/Home/Work/Deep", LATER).unwrap();
    assert_eq!(file(&db, 2).file_path, "/Home/Work/Deep");
    assert_eq!(
        folder(&db, "/Home/Work", "Deep").unwrap().file_unique_id,
        "folder_2_10_42/Home/WorkDeep"
    );
    assert_eq!(db.items.iter().filter(|item| item.file_name == "Work").count(), 1);
    let mut keys: Vec<&str> = db.items.iter().map(|i| i.file_unique_id.as_str()).collect();
    keys.sort();
    keys.dedup();
    assert_eq!(keys.len(), db.items.len());
    // every directory that holds something is the root or a folder
    for item in db.items.iter() {
        if item.file_path != "/Home" {
            let (parent, name) = skybox::paths::split_saved_parent_and_name(&item.file_path).unwrap();
            assert!(folder(&db, &parent, &name).is_some(), "{}", item.file_path);
        }
    }
}

#[test]
fn creating_a_folder_that_exists_under_another_key_does_not_double_it() {
    let mut db = Database::new();
    create_saved_folder(&mut db, OWNER, "/Home", "A", NOW).unwrap();
    rename_saved_item(&mut db, OWNER, "/Home/A", "B", NOW).unwrap();
    let before = db.items.clone();
    let row = create_saved_folder(&mut db, OWNER, "/Home", "B", LATER).unwrap();
    assert_eq!(db.items, before);
    assert_eq!(row.file_name, "B");
    assert_eq!(row.file_path, "/Home");
    assert_eq!(row.file_unique_id, "folder_2_5_42/HomeA");
    assert_eq!(Some(&row), folder(&db, "/Home", "B"));
    assert_eq!(db.items.iter().filter(|item| item.file_name == "B").count(), 1);
}

#[test]
fn folders_with_names_that_look_alike_live_side_by_side() {
    let mut db = Database::new();
    create_saved_folder(&mut db, OWNER, "/Home", "a b", NOW).unwrap();
    create_saved_folder(&mut db, OWNER, "/Home", "a-b", NOW).unwrap();
    create_saved_folder(&mut db, OWNER, "/Home", "a_b", NOW).unwrap();
    assert!(folder(&db, "/Home", "a b").is_some());
    assert!(folder(&db, "/Home", "a-b").is_some());
    assert!(folder(&db, "/Home", "a_b").is_some());
    assert_eq!(db.items.len(), 9);
}

#[test]
fn default_folders_are_written_once_and_left_alone() {
    let mut db = Database::new();
    db.ensure_telegram_saved_folders(OWNER, NOW);
    assert_eq!(db.items.len(), 6);
    let first = db.items.clone();
    db.ensure_telegram_saved_folders(OWNER, LATER);
    assert_eq!(db.items, first);

    // a default folder that was recycled keeps its row and what lies below it
    put_file(&mut db, 1, "f", "/Home/Images");
    move_saved_item_to_recycle_bin(&mut db, OWNER, "/Home/Images", LATER).unwrap();
    assert!(folder(&db, "/Home/Recycle Bin", "Images").is_some());
    assert_eq!(file(&db, 1).file_path, "/Home/Recycle Bin/Images");
    rename_saved_item(&mut db, OWNER, "tg://msg/1", "g", LATER).unwrap();
    assert!(folder(&db, "/Home/Recycle Bin", "Images").is_some());
    assert_eq!(db.items.iter().filter(|item| item.file_name == "Images").count(), 1);
    restore_saved_item(&mut db, OWNER, "/Home/Recycle Bin/Images", LATER).unwrap();
    assert!(folder(&db, "/Home", "Images").is_some());
    assert_eq!(file(&db, 1).file_path, "/Home/Images");
}

#[test]
fn renaming_a_folder_that_is_not_there_is_refused_unless_the_name_stays() {
    let mut db = Database::new();
    create_saved_folder(&mut db, OWNER, "/Home", "Work", NOW).unwrap();
    let before = db.items.clone();
    assert_eq!(
        rename_saved_item(&mut db, OWNER, "/Home/Missing", "Other", LATER),
        Err(SavedItemError::SourceFolderNotFound)
    );
    assert_eq!(SavedItemError::SourceFolderNotFound.kind(), ErrorKind::NotFound);
    // a path that ends in the new name already is left as it is, whether
    // the folder is there or not
    assert_eq!(rename_saved_item(&mut db, OWNER, "/Home/Missing", "Missing", LATER), Ok(()));
    assert_eq!(rename_saved_item(&mut db, OWNER, "/Home/Missing", " Missing ", LATER), Ok(()));
    assert_eq!(rename_saved_item(&mut db, OWNER, "/Home/a_b", "a/b", LATER), Ok(()));
    assert_eq!(db.items, before);
    assert_eq!(rename_saved_item(&mut db, OWNER, "/Home/Work", " Work ", LATER), Ok(()));
    assert_eq!(db.items, before);
}

#[test]
fn subtree_relocation_rewrites_the_prefix_only() {
    let mut db = Database::new();
    put_file(&mut db, 1, "f", "/Home/A/B");
    put_file(&mut db, 2, "g", "/Home/A");
    put_file(&mut db, 3, "h", "/Home/AB/A");
    db.move_telegram_saved_folder_tree(OWNER, "/Home", "A", "/Home/A", "/Home", "/Home/Z", LATER);
    assert_eq!(file(&db, 1).file_path, "/Home/Z/B");
    assert_eq!(file(&db, 2).file_path, "/Home/Z");
    assert_eq!(file(&db, 3).file_path, "/Home/AB/A");
    assert_eq!(file(&db, 1).modified_date, LATER);
    assert_eq!(file(&db, 3).modified_date, "2024-04-30T09:00:00+00:00");
}

#[test]
fn subtree_relocation_counts_characters_not_bytes() {
    let mut db = Database::new();
    put_file(&mut db, 1, "f", "/Home/Übung/Ärger");
    db.move_telegram_saved_folder_tree(
        OWNER,
        "/Home",
        "Übung",
        "/Home/Übung",
        "/Home",
        "/Home/Z",
        LATER,
    );
    assert_eq!(file(&db, 1).file_path, "/Home/Z/Ärger");
}

#[test]
fn subtree_is_found_by_exact_prefix() {
    let mut db = Database::new();
    put_file(&mut db, 1, "f", "/Home/a_b/x");
    put_file(&mut db, 2, "g", "/Home/aXb/x");
    put_file(&mut db, 3, "h", "/Home/A_B/x");
    db.move_telegram_saved_folder_tree(OWNER, "/Home", "a_b", "/Home/a_b", "/Home", "/Home/z", LATER);
    assert_eq!(file(&db, 1).file_path, "/Home/z/x");
    assert_eq!(file(&db, 2).file_path, "/Home/aXb/x");
    assert_eq!(file(&db, 3).file_path, "/Home/A_B/x");
}

#[test]
fn move_file_by_message_reference() {
    let mut db = Database::new();
    put_file(&mut db, 7, "report.pdf", "/Home/Work");
    move_saved_item(&mut db, OWNER, "tg://msg/7", "tg://saved/Archive/2024", LATER).unwrap();
    assert_eq!(file(&db, 7).file_path, "/Home/Archive/2024");
    assert_eq!(file(&db, 7).modified_date, LATER);
}

#[test]
fn move_refusals() {
    let mut db = Database::new();
    create_saved_folder(&mut db, OWNER, "/Home", "A", NOW).unwrap();
    assert_eq!(
        move_saved_item(&mut db, OWNER, "/Home/A", "nowhere", LATER),
        Err(SavedItemError::InvalidDestinationPath)
    );
    assert_eq!(
        move_saved_item(&mut db, OWNER, "tg://msg/9", "/Home", LATER),
        Err(SavedItemError::SourceFileNotFound)
    );
    assert_eq!(
        move_saved_item(&mut db, OWNER, "relative", "/Home", LATER),
        Err(SavedItemError::InvalidSourcePath)
    );
    assert_eq!(
        move_saved_item(&mut db, OWNER, "/Home", "/Home/A", LATER),
        Err(SavedItemError::CannotMoveRoot)
    );
    assert_eq!(
        move_saved_item(&mut db, OWNER, "/Home/A", "/Home/A/B", LATER),
        Err(SavedItemError::MoveIntoOwnChild)
    );
    assert_eq!(
        move_saved_item(&mut db, OWNER, "/Home/Missing", "/Home/A", LATER),
        Err(SavedItemError::SourceFolderNotFound)
    );
    assert_eq!(move_saved_item(&mut db, OWNER, "/Home/A", "/Home/A", LATER), Ok(()));
    assert!(folder(&db, "/Home", "A").is_some());
}

#[test]
fn error_kinds_and_messages() {
    assert_eq!(SavedItemError::CannotMoveRoot.kind(), ErrorKind::InvalidPath);
    assert_eq!(SavedItemError::InvalidSourcePath.kind(), ErrorKind::InvalidPath);
    assert_eq!(SavedItemError::SourceFileNotFound.kind(), ErrorKind::NotFound);
    assert_eq!(SavedItemError::SourceFolderNotFound.kind(), ErrorKind::NotFound);
    assert_eq!(SavedItemError::AlreadyRecycled.kind(), ErrorKind::InvalidState);
    assert_eq!(SavedItemError::FileNotRecycled.kind(), ErrorKind::InvalidState);
    assert_eq!(SavedItemError::FolderNotDeletable.kind(), ErrorKind::InvalidState);
    assert_eq!(
        SavedItemError::MoveIntoOwnChild.message(),
        "Cannot move a folder into its own child"
    );
    assert_eq!(
        SavedItemError::AlreadyRecycled.to_telegram_error().message,
        "Item is already in Recycle Bin"
    );
}

#[test]
fn rename_file_sets_name_and_caption() {
    let mut db = Database::new();
    put_file(&mut db, 7, "report.pdf", "/Home/Work");
    rename_saved_item(&mut db, OWNER, "tg://msg/7", " final:report.pdf ", LATER).unwrap();
    assert_eq!(file(&db, 7).file_name, "final_report.pdf");
    assert_eq!(file(&db, 7).file_caption, Some("final_report.pdf".to_string()));
    assert_eq!(file(&db, 7).file_path, "/Home/Work");
}

#[test]
fn rename_refusals_and_no_op() {
    let mut db = Database::new();
    create_saved_folder(&mut db, OWNER, "/Home", "Work", NOW).unwrap();
    assert_eq!(
        rename_saved_item(&mut db, OWNER, "/Home/Work", "  ", LATER),
        Err(SavedItemError::EmptyNewName)
    );
    assert_eq!(
        rename_saved_item(&mut db, OWNER, "/Home", "Root", LATER),
        Err(SavedItemError::CannotRenameRoot)
    );
    assert_eq!(
        rename_saved_item(&mut db, OWNER, "tg://msg/5", "x", LATER),
        Err(SavedItemError::SourceFileNotFound)
    );
    assert_eq!(
        rename_saved_item(&mut db, OWNER, "Work", "x", LATER),
        Err(SavedItemError::InvalidSourcePath)
    );
    assert_eq!(rename_saved_item(&mut db, OWNER, "/Home/Work", "Work", LATER), Ok(()));
    assert_eq!(folder(&db, "/Home", "Work").unwrap().modified_date, NOW);
}

#[test]
fn recycle_and_restore_a_folder_tree() {
    let mut db = Database::new();
    create_saved_folder(&mut db, OWNER, "/Home", "Work", NOW).unwrap();
    create_saved_folder(&mut db, OWNER, "/Home/Work", "Deep", NOW).unwrap();
    put_file(&mut db, 1, "a.txt", "/Home/Work");
    put_file(&mut db, 2, "b.txt", "/Home/Work/Deep");

    move_saved_item_to_recycle_bin(&mut db, OWNER, "/Home/Work", LATER).unwrap();
    assert_eq!(folder(&db, "/Home/Recycle Bin", "Work").unwrap().recycle_origin_path,
        Some("/Home".to_string()));
    assert_eq!(file(&db, 1).file_path, "/Home/Recycle Bin/Work");
    assert_eq!(file(&db, 1).recycle_origin_path, Some("/Home/Work".to_string()));
    assert_eq!(file(&db, 2).file_path, "/Home/Recycle Bin/Work/Deep");
    assert_eq!(file(&db, 2).recycle_origin_path, Some("/Home/Work/Deep".to_string()));
    assert_eq!(
        folder(&db, "/Home/Recycle Bin/Work", "Deep").unwrap().recycle_origin_path,
        Some("/Home/Work".to_string())
    );

    restore_saved_item(&mut db, OWNER, "/Home/Recycle Bin/Work", LATER).unwrap();
    assert!(folder(&db, "/Home", "Work").is_some());
    assert!(folder(&db, "/Home/Work", "Deep").is_some());
    assert_eq!(file(&db, 1).file_path, "/Home/Work");
    assert_eq!(file(&db, 2).file_path, "/Home/Work/Deep");
    assert!(db.items.iter().all(|item| item.recycle_origin_path.is_none()));
}

#[test]
fn first_recycle_origin_wins() {
    let mut db = Database::new();
    put_file(&mut db, 7, "report.pdf", "/Home/Work");
    db.recycle_telegram_saved_file_by_message_id(OWNER, 7, "/Home/Recycle Bin", NOW);
    db.recycle_telegram_saved_file_by_message_id(OWNER, 7, "/Home/Recycle Bin/again", LATER);
    assert_eq!(file(&db, 7).recycle_origin_path, Some("/Home/Work".to_string()));
    assert_eq!(file(&db, 7).file_path, "/Home/Recycle Bin/again");
}

#[test]
fn recycle_refusals() {
    let mut db = Database::new();
    put_file(&mut db, 7, "report.pdf", "/Home/Work");
    create_saved_folder(&mut db, OWNER, "/Home", "Work", NOW).unwrap();
    move_saved_item_to_recycle_bin(&mut db, OWNER, "tg://msg/7", LATER).unwrap();
    assert_eq!(
        move_saved_item_to_recycle_bin(&mut db, OWNER, "tg://msg/7", LATER),
        Err(SavedItemError::AlreadyRecycled)
    );
    assert_eq!(
        move_saved_item_to_recycle_bin(&mut db, OWNER, "tg://msg/8", LATER),
        Err(SavedItemError::SourceFileNotFound)
    );
    assert_eq!(
        move_saved_item_to_recycle_bin(&mut db, OWNER, "/Home", LATER),
        Err(SavedItemError::CannotMoveRoot)
    );
    assert_eq!(
        move_saved_item_to_recycle_bin(&mut db, OWNER, "/Home/Recycle Bin", LATER),
        Err(SavedItemError::AlreadyRecycled)
    );
    assert_eq!(
        move_saved_item_to_recycle_bin(&mut db, OWNER, "/Home/Recycle Bin/x", LATER),
        Err(SavedItemError::AlreadyRecycled)
    );
    assert_eq!(
        move_saved_item_to_recycle_bin(&mut db, OWNER, "/Home/Nope", LATER),
        Err(SavedItemError::SourceFolderNotFound)
    );
    assert_eq!(
        move_saved_item_to_recycle_bin(&mut db, OWNER, "ftp://x", LATER),
        Err(SavedItemError::InvalidSourcePath)
    );
}

#[test]
fn restore_refusals() {
    let mut db = Database::new();
    put_file(&mut db, 7, "report.pdf", "/Home/Work");
    create_saved_folder(&mut db, OWNER, "/Home", "Work", NOW).unwrap();
    assert_eq!(
        restore_saved_item(&mut db, OWNER, "tg://msg/7", LATER),
        Err(SavedItemError::FileNotRecycled)
    );
    assert_eq!(
        restore_saved_item(&mut db, OWNER, "tg://msg/9", LATER),
        Err(SavedItemError::SourceFileNotFound)
    );
    assert_eq!(
        restore_saved_item(&mut db, OWNER, "/Home/Work", LATER),
        Err(SavedItemError::FolderNotRecycled)
    );
    assert_eq!(
        restore_saved_item(&mut db, OWNER, "/Home/Recycle Bin/Nope", LATER),
        Err(SavedItemError::SourceFolderNotFound)
    );
    assert_eq!(
        restore_saved_item(&mut db, OWNER, "x", LATER),
        Err(SavedItemError::InvalidSourcePath)
    );
}

#[test]
fn restore_without_origin_goes_to_the_root() {
    let mut db = Database::new();
    put_file(&mut db, 7, "report.pdf", "/Home/Recycle Bin");
    restore_saved_item(&mut db, OWNER, "tg://msg/7", LATER).unwrap();
    assert_eq!(file(&db, 7).file_path, "/Home");
}

#[test]
fn restore_creates_missing_folders_on_the_way() {
    let mut db = Database::new();
    put_file(&mut db, 7, "report.pdf", "/Home/Work/2024/Q1");
    move_saved_item_to_recycle_bin(&mut db, OWNER, "tg://msg/7", NOW).unwrap();
    assert!(folder(&db, "/Home", "Work").is_none());
    restore_saved_item(&mut db, OWNER, "tg://msg/7", LATER).unwrap();
    assert_eq!(file(&db, 7).file_path, "/Home/Work/2024/Q1");
    assert!(folder(&db, "/Home", "Work").is_some());
    assert!(folder(&db, "/Home/Work", "2024").is_some());
    assert!(folder(&db, "/Home/Work/2024", "Q1").is_some());
    assert_eq!(
        folder(&db, "/Home/Work", "2024").unwrap().file_unique_id,
        "folder_2_10_42/Home/Work2024"
    );
}

#[test]
fn hierarchy_is_created_once() {
    let mut db = Database::new();
    ensure_saved_folder_hierarchy(&mut db, OWNER, "/Home/a/ b //c", NOW);
    assert_eq!(db.items.len(), 3);
    assert!(folder(&db, "/Home", "a").is_some());
    assert!(folder(&db, "/Home/a", "b").is_some());
    assert!(folder(&db, "/Home/a/b", "c").is_some());
    ensure_saved_folder_hierarchy(&mut db, OWNER, "/Home/a/b/c", LATER);
    assert_eq!(db.items.len(), 3);
    assert_eq!(folder(&db, "/Home", "a").unwrap().modified_date, NOW);
    ensure_saved_folder_hierarchy(&mut db, OWNER, "/Home", LATER);
    ensure_saved_folder_hierarchy(&mut db, OWNER, "", LATER);
    assert_eq!(db.items.len(), 3);
}

#[test]
fn permanent_delete_of_a_file() {
    let mut db = Database::new();
    put_file(&mut db, 7, "report.pdf", "/Home/Work");
    put_file(&mut db, 8, "other.pdf", "/Home/Work");
    assert_eq!(
        plan_permanent_delete(&db, OWNER, "tg://msg/7"),
        Err(SavedItemError::FileNotDeletable)
    );
    move_saved_item_to_recycle_bin(&mut db, OWNER, "tg://msg/7", NOW).unwrap();
    let plan = plan_permanent_delete(&db, OWNER, "tg://msg/7").unwrap();
    assert_eq!(plan.target, DeleteTarget::File { message_id: 7 });
    assert_eq!(plan.message_ids, vec![7]);
    apply_permanent_delete(&mut db, OWNER, 42, &plan);
    assert!(db.items.iter().all(|item| item.message_id != 7));
    assert!(db.messages.iter().all(|m| m.message_id != 7));
    assert!(db.messages.iter().any(|m| m.message_id == 8));
    assert_eq!(file(&db, 8).file_path, "/Home/Work");
}

#[test]
fn permanent_delete_of_a_folder_tree() {
    let mut db = Database::new();
    create_saved_folder(&mut db, OWNER, "/Home", "Work", NOW).unwrap();
    create_saved_folder(&mut db, OWNER, "/Home/Work", "Deep", NOW).unwrap();
    put_file(&mut db, 9, "a", "/Home/Work");
    put_file(&mut db, 3, "b", "/Home/Work/Deep");
    put_file(&mut db, 5, "c", "/Home/Other");
    assert_eq!(
        plan_permanent_delete(&db, OWNER, "/Home/Work"),
        Err(SavedItemError::FolderNotDeletable)
    );
    move_saved_item_to_recycle_bin(&mut db, OWNER, "/Home/Work", NOW).unwrap();
    assert_eq!(
        plan_permanent_delete(&db, OWNER, "/Home/Recycle Bin/Nope"),
        Err(SavedItemError::SourceFolderNotFound)
    );
    assert_eq!(
        plan_permanent_delete(&db, OWNER, "tg://msg/1"),
        Err(SavedItemError::SourceFileNotFound)
    );
    assert_eq!(
        plan_permanent_delete(&db, OWNER, "x"),
        Err(SavedItemError::InvalidSourcePath)
    );
    let plan = plan_permanent_delete(&db, OWNER, "/Home/Recycle Bin/Work").unwrap();
    assert_eq!(
        plan.target,
        DeleteTarget::Folder {
            parent: "/Home/Recycle Bin".to_string(),
            name: "Work".to_string(),
            path: "/Home/Recycle Bin/Work".to_string(),
        }
    );
    assert_eq!(plan.message_ids, vec![3, 9]);
    apply_permanent_delete(&mut db, OWNER, 42, &plan);
    assert!(folder(&db, "/Home/Recycle Bin", "Work").is_none());
    assert!(folder(&db, "/Home/Recycle Bin/Work", "Deep").is_none());
    assert!(db.items.iter().all(|item| item.message_id != 9 && item.message_id != 3));
    assert_eq!(file(&db, 5).file_path, "/Home/Other");
    let cached: Vec<i32> = db.messages.iter().map(|m| m.message_id).collect();
    assert_eq!(cached, vec![5]);
}

#[test]
fn delete_batches_hold_at_most_a_hundred_ids() {
    assert!(delete_batches(&Vec::new()).is_empty());
    let ids: Vec<i32> = (1..=250).collect();
    let batches = delete_batches(&ids);
    assert_eq!(batches.len(), 3);
    assert_eq!(batches[0], (1..=100).collect::<Vec<i32>>());
    assert_eq!(batches[1], (101..=200).collect::<Vec<i32>>());
    assert_eq!(batches[2], (201..=250).collect::<Vec<i32>>());
    let exact: Vec<i32> = (1..=200).collect();
    assert_eq!(delete_batches(&exact).len(), 2);
    assert_eq!(delete_batches(&vec![5]), vec![vec![5]]);
}

#[test]
fn other_owners_are_left_alone() {
    let mut db = Database::new();
    put_file(&mut db, 7, "report.pdf", "/Home/Work");
    let msg = message(7, "theirs.pdf");
    upsert_saved_item_from_message(&mut db, "99", &msg, Some("/Home/Work"), None);
    db.move_telegram_saved_file_by_message_id("99", 7, "/Home/Else", LATER);
    // both rows share the key of the message, so the later write replaced the first
    assert_eq!(db.items.len(), 1);
    assert_eq!(db.items[0].owner_id, "99");
    assert_eq!(db.items[0].file_path, "/Home/Else");
    db.move_telegram_saved_file_by_message_id(OWNER, 7, "/Home/Mine", LATER);
    assert_eq!(db.items[0].file_path, "/Home/Else");
}

#[test]
fn a_path_of_slashes_names_the_root() {
    let mut db = Database::new();
    create_saved_folder(&mut db, OWNER, "/Home", "A", NOW).unwrap();
    assert_eq!(
        move_saved_item(&mut db, OWNER, "//", "/Home/A", LATER),
        Err(SavedItemError::CannotMoveRoot)
    );
    assert_eq!(
        rename_saved_item(&mut db, OWNER, "//", "B", LATER),
        Err(SavedItemError::CannotRenameRoot)
    );
    assert_eq!(
        move_saved_item_to_recycle_bin(&mut db, OWNER, " / / ", LATER),
        Err(SavedItemError::CannotMoveRoot)
    );
    assert_eq!(SavedItemError::InvalidSourceFolderPath.kind(), ErrorKind::InvalidPath);
    assert_eq!(
        SavedItemError::InvalidSourceFolderPath.message(),
        "Invalid source folder path"
    );
}

#[test]
fn recycling_keeps_origins_where_rows_lie_in_the_bin() {
    let mut db = Database::new();
    create_saved_folder(&mut db, OWNER, "/Home", "Work", NOW).unwrap();
    create_saved_folder(&mut db, OWNER, "/Home/Work", "Deep", NOW).unwrap();
    put_file(&mut db, 1, "a.txt", "/Home/Work");
    put_file(&mut db, 2, "b.txt", "/Home/Work/Deep");
    put_file(&mut db, 3, "c.txt", "/Home/Else");
    move_saved_item_to_recycle_bin(&mut db, OWNER, "tg://msg/3", NOW).unwrap();
    move_saved_item_to_recycle_bin(&mut db, OWNER, "/Home/Work/Deep", LATER).unwrap();
    for item in &db.items {
        let in_bin = item.file_path == "/Home/Recycle Bin"
            || item.file_path.starts_with("/Home/Recycle Bin/");
        assert_eq!(item.recycle_origin_path.is_some(), in_bin, "{:?}", item);
        if let Some(origin) = &item.recycle_origin_path {
            assert!(!origin.starts_with("/Home/Recycle Bin"));
        }
    }
    assert_eq!(file(&db, 2).file_path, "/Home/Recycle Bin/Deep");
    assert_eq!(file(&db, 2).recycle_origin_path, Some("/Home/Work/Deep".to_string()));
    assert_eq!(file(&db, 1).file_path, "/Home/Work");
    restore_saved_item(&mut db, OWNER, "/Home/Recycle Bin/Deep", LATER).unwrap();
    assert_eq!(file(&db, 2).file_path, "/Home/Work/Deep");
    assert_eq!(folder(&db, "/Home/Work", "Deep").unwrap().recycle_origin_path, None);
}

#[test]
fn keys_stay_unique() {
    let mut db = Database::new();
    create_saved_folder(&mut db, OWNER, "/Home", "Work", NOW).unwrap();
    put_file(&mut db, 1, "a.txt", "/Home/Work");
    put_file(&mut db, 1, "again.txt", "/Home/Work");
    create_saved_folder(&mut db, OWNER, "/Home", "Work", LATER).unwrap();
    move_saved_item(&mut db, OWNER, "/Home/Work", "/Home/Documents/Work", LATER).unwrap();
    rename_saved_item(&mut db, OWNER, "/Home/Documents/Work", "Done", LATER).unwrap();
    let mut keys: Vec<&str> = db.items.iter().map(|i| i.file_unique_id.as_str()).collect();
    let count = keys.len();
    keys.sort();
    keys.dedup();
    assert_eq!(keys.len(), count);
    assert_eq!(file(&db, 1).file_path, "/Home/Documents/Done");
    assert_eq!(file(&db, 1).file_name, "again.txt");
}
