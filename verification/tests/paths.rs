use std::path::Path;

use ark_msg::paths::{
    chats_root, default_slug, get_chat_ark_path, get_chat_file_path, get_chat_fs_path,
    sanitize_slug,
};

#[test]
fn sanitize_lowercases_and_replaces() {
    assert_eq!(sanitize_slug("Hello World!"), "hello-world");
    assert_eq!(sanitize_slug("  spaced  "), "spaced");
    assert_eq!(sanitize_slug("____"), "chat");
    assert_eq!(sanitize_slug(""), "chat");
    assert_eq!(sanitize_slug("under_score"), "under-score");
}

#[test]
fn default_slug_uses_local_part() {
    assert_eq!(default_slug(&["bob@host:8080".to_string()]), "bob");
    assert_eq!(default_slug(&[]), "chat");
}

#[test]
fn default_slug_falls_back_where_nothing_is_left() {
    assert_eq!(default_slug(&["@host".to_string(), "bob@host".to_string()]), "chat");
    assert_eq!(default_slug(&["bob".to_string()]), "bob");
}

#[test]
fn slugs_are_lowercase_beyond_ascii() {
    // The Kelvin sign is a lowercase k, and what stays outside a-z is a dash.
    assert_eq!(sanitize_slug("\u{212A}elvin"), "kelvin");
    assert_eq!(sanitize_slug("caf\u{c9} noir"), "caf-noir");
    // A lowercase of two characters: i and a combining dot.
    assert_eq!(sanitize_slug("\u{130}x"), "i-x");
}

#[test]
fn slugs_are_trimmed_of_all_white_space() {
    assert_eq!(sanitize_slug("\u{3000}\t wide \u{a0}\n"), "wide");
}

#[test]
fn slugs_hold_single_dashes_for_other_characters() {
    assert_eq!(sanitize_slug("a & b"), "a-b");
    assert_eq!(sanitize_slug("--a--"), "a");
    assert_eq!(sanitize_slug("a!!!b"), "a-b");
    assert_eq!(sanitize_slug("a__b"), "a-b");
}

#[test]
fn slugs_are_capped() {
    let long = "x".repeat(40);
    assert_eq!(sanitize_slug(&long), "x".repeat(32));
    let dashed = format!("{} tail", "y".repeat(31));
    assert_eq!(sanitize_slug(&dashed), format!("{}-", "y".repeat(31)));
}

#[test]
fn sanitizing_again_changes_nothing() {
    for input in ["Hello World!", "a & b", "", "x_y", "bob@host"] {
        let slug = sanitize_slug(input);
        assert_eq!(sanitize_slug(&slug), slug);
    }
}

#[test]
fn chat_paths() {
    assert_eq!(chats_root(), "apps/msg/chats");
    assert_eq!(get_chat_ark_path("bob_1"), "/apps/msg/chats/bob_1");
    assert_eq!(get_chat_file_path("bob_1", "chat.json"), "/apps/msg/chats/bob_1/chat.json");
}

#[test]
fn chat_dirs_in_the_mirror() {
    for root in ["/home/alice", "/home/alice/", "mirror", ""] {
        let root = Path::new(root);
        let dir = get_chat_fs_path(root, "bob_1");
        assert_eq!(dir, root.join("apps/msg/chats").join("bob_1"));
        assert!(dir.starts_with(root) && dir.ends_with("apps/msg/chats/bob_1"));
    }
    // An absolute path stands for itself.
    assert_eq!(get_chat_fs_path(Path::new("/home/alice"), "/bob_1"), Path::new("/bob_1"));
}
