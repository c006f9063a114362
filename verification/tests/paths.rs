use skybox::paths::{
    build_folder_unique_id, category_to_saved_path, is_recycle_bin_saved_path,
    normalize_saved_path, parse_message_id_from_virtual_path, split_saved_parent_and_name,
    virtual_to_saved_path,
};

#[test]
fn normalize_puts_relative_paths_under_home() {
    assert_eq!(normalize_saved_path("Work"), "/Home/Work");
    assert_eq!(normalize_saved_path("Work/Reports"), "/Home/Work/Reports");
}

#[test]
fn normalize_maps_empty_and_slash_to_root() {
    assert_eq!(normalize_saved_path(""), "/Home");
    assert_eq!(normalize_saved_path("   "), "/Home");
    assert_eq!(normalize_saved_path("/"), "/Home");
    assert_eq!(normalize_saved_path(" / "), "/Home");
}

#[test]
fn normalize_keeps_rooted_paths() {
    assert_eq!(normalize_saved_path("/Home"), "/Home");
    assert_eq!(normalize_saved_path("/Home/Work"), "/Home/Work");
    assert_eq!(normalize_saved_path("/Home/Work///"), "/Home/Work");
}

#[test]
fn normalize_prefixes_other_absolute_paths() {
    assert_eq!(normalize_saved_path("/Work"), "/Home/Work");
    assert_eq!(normalize_saved_path("/Work/"), "/Home/Work");
}

#[test]
fn normalize_treats_backslash_as_slash() {
    assert_eq!(normalize_saved_path("\\Home\\Work\\"), "/Home/Work");
    assert_eq!(normalize_saved_path("Work\\Reports"), "/Home/Work/Reports");
}

#[test]
fn normalize_trims_unicode_white_space() {
    assert_eq!(normalize_saved_path("\u{3000}Work\u{2003}\t"), "/Home/Work");
}

#[test]
fn normalize_is_idempotent() {
    for p in [
        "", "/", "//", " / / ", "Work", "/Work/x/", "\\a\\b", "/Home/a b", "  x  ", "/Homework",
        "/Home/a /", "/Home/", "/Home/ ", "a/ / /", "\\", "/Home\u{3000}/", "x/\t/",
    ] {
        let once = normalize_saved_path(p);
        assert_eq!(normalize_saved_path(&once), once, "input {:?}", p);
    }
}

#[test]
fn normalize_cleans_the_end_of_slashes_and_white_space() {
    assert_eq!(normalize_saved_path("/Home/a /"), "/Home/a");
    assert_eq!(normalize_saved_path("//"), "/Home");
    assert_eq!(normalize_saved_path("/Home/"), "/Home");
    assert_eq!(normalize_saved_path("/Home/ / "), "/Home");
    assert_eq!(normalize_saved_path("a/ b /"), "/Home/a/ b");
    assert_eq!(normalize_saved_path("\\ \\"), "/Home");
}

#[test]
fn virtual_saved_scheme_maps_under_home() {
    assert_eq!(virtual_to_saved_path("tg://saved/Work"), Some("/Home/Work".to_string()));
    assert_eq!(virtual_to_saved_path("tg://saved/Work/x/"), Some("/Home/Work/x".to_string()));
    assert_eq!(virtual_to_saved_path("tg://saved"), Some("/Home".to_string()));
    assert_eq!(virtual_to_saved_path("tg://saved/"), Some("/Home".to_string()));
    assert_eq!(virtual_to_saved_path("  tg://saved///a  "), Some("/Home/a".to_string()));
    assert_eq!(virtual_to_saved_path("tg://saved/Home"), Some("/Home/Home".to_string()));
    assert_eq!(virtual_to_saved_path("tg://saved/a\\b/ "), Some("/Home/a/b".to_string()));
}

#[test]
fn virtual_saved_scheme_stands_alone_or_before_a_slash() {
    assert_eq!(virtual_to_saved_path("tg://savedX"), None);
    assert_eq!(virtual_to_saved_path("tg://savedtg://saved/a"), None);
    assert_eq!(virtual_to_saved_path("tg://saved2/a"), None);
    assert_eq!(
        virtual_to_saved_path("tg://saved/tg://saved/a"),
        Some("/Home/tg://saved/a".to_string())
    );
}

#[test]
fn virtual_rooted_paths_are_normalized() {
    assert_eq!(virtual_to_saved_path("/Home/Work/"), Some("/Home/Work".to_string()));
    assert_eq!(virtual_to_saved_path("/Work"), Some("/Home/Work".to_string()));
    assert_eq!(virtual_to_saved_path("/"), Some("/Home".to_string()));
}

#[test]
fn virtual_unknown_schemes_are_refused() {
    assert_eq!(virtual_to_saved_path("Work"), None);
    assert_eq!(virtual_to_saved_path("tg://msg/5"), None);
    assert_eq!(virtual_to_saved_path("http://x"), None);
    assert_eq!(virtual_to_saved_path(""), None);
}

#[test]
fn message_reference_is_parsed() {
    assert_eq!(parse_message_id_from_virtual_path("tg://msg/42"), Some(42));
    assert_eq!(parse_message_id_from_virtual_path("  tg://msg/42  "), Some(42));
    assert_eq!(parse_message_id_from_virtual_path("tg://msg/+7"), Some(7));
    assert_eq!(parse_message_id_from_virtual_path("tg://msg/-7"), Some(-7));
    assert_eq!(parse_message_id_from_virtual_path("tg://msg/007"), Some(7));
    assert_eq!(parse_message_id_from_virtual_path("tg://msg/2147483647"), Some(2147483647));
    assert_eq!(parse_message_id_from_virtual_path("tg://msg/-2147483648"), Some(-2147483648));
}

#[test]
fn message_reference_refuses_what_is_no_id() {
    assert_eq!(parse_message_id_from_virtual_path("tg://msg/"), None);
    assert_eq!(parse_message_id_from_virtual_path("tg://msg/4x"), None);
    assert_eq!(parse_message_id_from_virtual_path("tg://msg/4 2"), None);
    assert_eq!(parse_message_id_from_virtual_path("tg://msg/2147483648"), None);
    assert_eq!(parse_message_id_from_virtual_path("tg://msg/-2147483649"), None);
    assert_eq!(parse_message_id_from_virtual_path("tg://msg/-"), None);
    assert_eq!(parse_message_id_from_virtual_path("tg://saved/42"), None);
    assert_eq!(parse_message_id_from_virtual_path("/Home/42"), None);
}

#[test]
fn message_reference_agrees_with_std_parse() {
    for text in ["0", "-0", "+0", "12", "0012", "99999999999", "", "+", "1_0", "١٢"] {
        let path = format!("tg://msg/{}", text);
        assert_eq!(
            parse_message_id_from_virtual_path(&path),
            text.parse::<i32>().ok(),
            "text {:?}",
            text
        );
    }
}

#[test]
fn split_gives_parent_and_name() {
    assert_eq!(
        split_saved_parent_and_name("/Home/Work"),
        Some(("/Home".to_string(), "Work".to_string()))
    );
    assert_eq!(
        split_saved_parent_and_name("/Home/Work/Reports/"),
        Some(("/Home/Work".to_string(), "Reports".to_string()))
    );
    assert_eq!(
        split_saved_parent_and_name("Work"),
        Some(("/Home".to_string(), "Work".to_string()))
    );
}

#[test]
fn split_fails_for_the_root() {
    assert_eq!(split_saved_parent_and_name("/Home"), None);
    assert_eq!(split_saved_parent_and_name("/"), None);
    assert_eq!(split_saved_parent_and_name(""), None);
}

#[test]
fn split_of_a_path_without_inner_slash_has_home_as_parent() {
    assert_eq!(
        split_saved_parent_and_name("/Homework"),
        Some(("/Home".to_string(), "Homework".to_string()))
    );
}

#[test]
fn split_returns_what_a_folder_was_created_with() {
    let parent = normalize_saved_path("Work/Reports");
    let name = "2024 Q1";
    let full = format!("{}/{}", parent, name);
    assert_eq!(
        split_saved_parent_and_name(&full),
        Some((parent, name.to_string()))
    );
}

#[test]
fn recycle_bin_paths_are_told() {
    assert!(is_recycle_bin_saved_path("/Home/Recycle Bin"));
    assert!(is_recycle_bin_saved_path("/Home/Recycle Bin/Work"));
    assert!(!is_recycle_bin_saved_path("/Home/Recycle Binder"));
    assert!(!is_recycle_bin_saved_path("/Home/Recycle"));
    assert!(!is_recycle_bin_saved_path("/Home"));
    assert!(!is_recycle_bin_saved_path("/Home/recycle bin"));
}

#[test]
fn categories_have_their_directories() {
    assert_eq!(category_to_saved_path("Images"), "/Home/Images");
    assert_eq!(category_to_saved_path("Videos"), "/Home/Videos");
    assert_eq!(category_to_saved_path("Audios"), "/Home/Audios");
    assert_eq!(category_to_saved_path("Documents"), "/Home/Documents");
    assert_eq!(category_to_saved_path("Notes"), "/Home/Notes");
    assert_eq!(category_to_saved_path("Other"), "/Home");
    assert_eq!(category_to_saved_path("images"), "/Home");
}

#[test]
fn folder_keys_hold_the_lengths_and_the_three_texts() {
    assert_eq!(
        build_folder_unique_id("42", "/Home/Work", "My Docs"),
        "folder_2_10_42/Home/WorkMy Docs"
    );
    assert_eq!(build_folder_unique_id("a", "b", "é.c"), "folder_1_1_abé.c");
    assert_eq!(build_folder_unique_id("", "", ""), "folder_0_0_");
}

#[test]
fn folder_keys_tell_folders_apart() {
    let keys = [
        build_folder_unique_id("1", "/Home", "a b"),
        build_folder_unique_id("1", "/Home", "a-b"),
        build_folder_unique_id("1", "/Home", "a_b"),
        build_folder_unique_id("1", "/Home/a", "b"),
        build_folder_unique_id("1", "/Home/", "ab"),
        build_folder_unique_id("1/", "Home", "a b"),
        build_folder_unique_id("11", "/Home", "a b"),
        build_folder_unique_id("1", "1/Home", "a b"),
        build_folder_unique_id("", "1/Home", "a b"),
        build_folder_unique_id("1", "", "/Homea b"),
    ];
    for i in 0..keys.len() {
        for j in 0..keys.len() {
            assert_eq!(keys[i] == keys[j], i == j, "{} and {}", i, j);
        }
    }
    assert_eq!(
        build_folder_unique_id("1", "/Home", "a b"),
        build_folder_unique_id("1", "/Home", "a b")
    );
}
