use comic_reader::files::{
    content_type_for, empty_directory_error, is_image, load_images, validate_directory, AppError,
    DirEntry,
};

fn entry(name: &str, is_file: bool) -> DirEntry {
    DirEntry { name: name.to_string(), is_file }
}

#[test]
fn lists_recognized_images_sorted() {
    let entries = vec![
        entry("a.png", true),
        entry("b.txt", true),
        entry("c.JPG", true),
        entry("d.webp", true),
    ];
    let images = load_images(&entries);
    assert_eq!(
        images,
        vec!["a.png".to_string(), "c.JPG".to_string(), "d.webp".to_string()]
    );
}

#[test]
fn listing_sorts_names_out_of_order() {
    let entries = vec![
        entry("z.png", true),
        entry("10.png", true),
        entry("2.png", true),
        entry("B.png", true),
        entry("a.png", true),
    ];
    let images = load_images(&entries);
    assert_eq!(
        images,
        vec![
            "10.png".to_string(),
            "2.png".to_string(),
            "B.png".to_string(),
            "a.png".to_string(),
            "z.png".to_string()
        ]
    );
}

#[test]
fn listing_skips_directories_and_unrecognized_names() {
    let entries = vec![
        entry("sub.png", false),
        entry("noext", true),
        entry(".png", true),
        entry("x.", true),
        entry("keep.jpeg", true),
    ];
    let images = load_images(&entries);
    assert_eq!(images, vec!["keep.jpeg".to_string()]);
}

#[test]
fn listing_of_empty_directory_is_empty() {
    let images = load_images(&Vec::new());
    assert!(images.is_empty());
}

#[test]
fn recognizes_extensions_regardless_of_case() {
    assert!(is_image("a.png"));
    assert!(is_image("a.PNG"));
    assert!(is_image("a.Jpg"));
    assert!(is_image("a.jpeg"));
    assert!(is_image("a.WEBP"));
    assert!(is_image("archive.tar.png"));
    assert!(!is_image("a.gif"));
    assert!(!is_image("a.pngx"));
    assert!(!is_image("noext"));
    assert!(!is_image(".png"));
    assert!(!is_image("x."));
}

#[test]
fn resolves_content_types() {
    assert_eq!(content_type_for("x.PNG"), "image/png");
    assert_eq!(content_type_for("x.jpeg"), "image/jpeg");
    assert_eq!(content_type_for("x"), "application/octet-stream");
    assert_eq!(content_type_for("x.jpg"), "image/jpeg");
    assert_eq!(content_type_for("x.JPG"), "image/jpeg");
    assert_eq!(content_type_for("x.webp"), "image/webp");
    assert_eq!(content_type_for("x.txt"), "application/octet-stream");
    assert_eq!(content_type_for(".png"), "application/octet-stream");
    assert_eq!(content_type_for("x."), "application/octet-stream");
}

#[test]
fn accepts_a_probed_directory() {
    match validate_directory("/tmp/pics".to_string(), Some(true)) {
        Ok(p) => assert_eq!(p, "/tmp/pics"),
        Err(_) => panic!("a directory must be accepted"),
    }
}

#[test]
fn rejects_a_path_that_is_no_directory() {
    match validate_directory("/tmp/a.txt".to_string(), Some(false)) {
        Ok(_) => panic!("a plain file must be rejected"),
        Err(AppError::InvalidPath(m)) => assert_eq!(m, "/tmp/a.txt is not a directory"),
        Err(_) => panic!("expected an invalid-path error"),
    }
}

#[test]
fn rejects_an_unreadable_path() {
    match validate_directory("/nope".to_string(), None) {
        Ok(_) => panic!("an unreadable path must be rejected"),
        Err(AppError::InvalidPath(m)) => assert_eq!(m, "could not read /nope"),
        Err(_) => panic!("expected an invalid-path error"),
    }
}

#[test]
fn empty_directory_error_names_the_extensions() {
    match empty_directory_error("/tmp/pics") {
        AppError::EmptyDirectory(m) => assert_eq!(
            m,
            "No images found in /tmp/pics (looking for .png, .jpg, .jpeg, .webp)"
        ),
        _ => panic!("expected the empty-directory error"),
    }
}
