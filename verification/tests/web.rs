use comic_reader::files::{validate_directory, AppError, DirEntry};
use comic_reader::text::{sort_names, str_eq, str_lex_le, trim_str};
use comic_reader::web::{
    api_images, asset_lookup, get_image_begin, get_image_finish, select_dir_begin,
    select_dir_finish, select_dir_reject, AppState, AssetKind, ImageLookup, ImageReply,
    SelectDirStep,
};

fn entry(name: &str, is_file: bool) -> DirEntry {
    DirEntry { name: name.to_string(), is_file }
}

fn state_with(dir: &str, names: &[&str]) -> AppState {
    AppState::new(
        Some(dir.to_string()),
        names.iter().map(|n| n.to_string()).collect(),
    )
}

#[test]
fn traversal_names_always_rejected() {
    let unsafe_names = ["../secret", "..", "a/b.png", "a\\b.png", "..png", "sub/..\\x"];
    let empty = AppState::new(None, Vec::new());
    let set = state_with("/pics", &["a.png"]);
    for name in unsafe_names {
        assert!(matches!(get_image_begin(&empty, name), ImageLookup::Reject));
        assert!(matches!(get_image_begin(&set, name), ImageLookup::Reject));
    }
}

#[test]
fn image_request_before_any_directory_finds_nothing() {
    let empty = AppState::new(None, Vec::new());
    assert!(matches!(
        get_image_begin(&empty, "foo.png"),
        ImageLookup::NoDir
    ));
}

#[test]
fn image_request_takes_the_directory_snapshot() {
    let set = state_with("/pics", &["a.png"]);
    match get_image_begin(&set, "a.png") {
        ImageLookup::Fetch(d) => assert_eq!(d, "/pics"),
        _ => panic!("expected a fetch against the active directory"),
    }
}

#[test]
fn served_image_carries_resolved_content_type() {
    let bytes = vec![1u8, 2, 3];
    match get_image_finish("a.png", Some(bytes.clone())) {
        ImageReply::Found(c) => {
            assert_eq!(c.bytes, bytes);
            assert_eq!(c.content_type, "image/png");
        }
        ImageReply::Missing => panic!("expected the bytes to be served"),
    }
    assert!(matches!(
        get_image_finish("a.png", None),
        ImageReply::Missing
    ));
}

#[test]
fn switch_then_list_returns_the_new_names() {
    let mut state = AppState::new(None, Vec::new());
    let probe = match select_dir_begin("  /tmp/pics  ") {
        SelectDirStep::Probe(p) => p,
        SelectDirStep::Rejected { .. } => panic!("a real path must probe"),
    };
    assert_eq!(probe, "/tmp/pics");
    let dir = match validate_directory(probe, Some(true)) {
        Ok(d) => d,
        Err(_) => panic!("a directory must validate"),
    };
    let entries = vec![
        entry("b.png", true),
        entry("a.jpeg", true),
        entry("notes.txt", true),
        entry("sub", false),
    ];
    let (status, reply) = select_dir_finish(&mut state, dir, Some(entries));
    assert_eq!(status, 200);
    assert!(reply.ok);
    assert_eq!(reply.count, 2);
    let listing = api_images(&state);
    assert_eq!(
        listing.images,
        vec!["a.jpeg".to_string(), "b.png".to_string()]
    );
    assert_eq!(listing.page_size, 20);
}

#[test]
fn blank_paths_rejected_with_400() {
    for path in ["", "   ", " \t\r\n ", "\u{3000}\u{00A0}\u{2003}"] {
        match select_dir_begin(path) {
            SelectDirStep::Rejected { status, reply } => {
                assert_eq!(status, 400);
                assert!(!reply.ok);
                assert_eq!(reply.count, 0);
            }
            SelectDirStep::Probe(_) => panic!("a blank path must be rejected"),
        }
    }
}

#[test]
fn rejected_validation_surfaces_the_message() {
    let err = match validate_directory("/nope".to_string(), None) {
        Err(e) => e,
        Ok(_) => panic!("an unreadable path must be rejected"),
    };
    let (status, reply) = select_dir_reject(err);
    assert_eq!(status, 400);
    assert!(!reply.ok);
    assert_eq!(reply.count, 0);
    assert_eq!(reply.message, "could not read /nope");
}

#[test]
fn failed_listing_leaves_the_state_alone() {
    let mut state = state_with("/old", &["keep.png"]);
    let (status, reply) = select_dir_finish(&mut state, "/new".to_string(), None);
    assert_eq!(status, 400);
    assert!(!reply.ok);
    assert_eq!(reply.count, 0);
    assert_eq!(reply.message, "failed to read /new");
    let listing = api_images(&state);
    assert_eq!(listing.images, vec!["keep.png".to_string()]);
}

#[test]
fn repeated_listing_is_identical() {
    let state = state_with("/pics", &["a.png", "b.png"]);
    let first = api_images(&state);
    let second = api_images(&state);
    assert_eq!(first.images, second.images);
    assert_eq!(first.page_size, second.page_size);
    assert_eq!(first.page_size, 20);
}

#[test]
fn listing_before_any_directory_is_empty() {
    let state = AppState::new(None, Vec::new());
    let listing = api_images(&state);
    assert!(listing.images.is_empty());
    assert_eq!(listing.page_size, 20);
}

#[test]
fn assets_resolved_by_exact_name() {
    assert!(matches!(
        asset_lookup("style.css"),
        Some(AssetKind::Stylesheet)
    ));
    assert!(matches!(asset_lookup("app.js"), Some(AssetKind::Script)));
    assert!(matches!(
        asset_lookup("layout.html"),
        Some(AssetKind::Layout)
    ));
    assert!(asset_lookup("other.css").is_none());
    assert!(asset_lookup("").is_none());
}

#[test]
fn trim_removes_whitespace_at_both_ends() {
    assert_eq!(trim_str("  a b  "), "a b");
    assert_eq!(trim_str("\u{3000}path\u{00A0}"), "path");
    assert_eq!(trim_str("inner"), "inner");
    assert_eq!(trim_str(""), "");
    assert_eq!(trim_str(" \t "), "");
}

#[test]
fn name_order_is_by_code_point() {
    assert!(str_lex_le("B.png", "a.png"));
    assert!(!str_lex_le("a.png", "B.png"));
    assert!(str_lex_le("10.png", "2.png"));
    assert!(str_lex_le("a", "a"));
    assert!(str_lex_le("a", "ab"));
    assert!(!str_lex_le("ab", "a"));
}

#[test]
fn string_equality_is_by_characters() {
    assert!(str_eq("abc", "abc"));
    assert!(!str_eq("abc", "abd"));
    assert!(!str_eq("abc", "ab"));
    assert!(str_eq("", ""));
}

#[test]
fn sorting_names_orders_and_keeps_them() {
    let names = vec![
        "z.png".to_string(),
        "a.png".to_string(),
        "a.png".to_string(),
        "B.png".to_string(),
    ];
    let sorted = sort_names(names);
    assert_eq!(
        sorted,
        vec![
            "B.png".to_string(),
            "a.png".to_string(),
            "a.png".to_string(),
            "z.png".to_string()
        ]
    );
}
