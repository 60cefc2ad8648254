use images_to_pdf::file_names::{has_zip_extension, is_image_file, select_image_entries, sort_names};

#[test]
fn recognises_each_supported_extension() {
    for name in ["a.jpg", "b.jpeg", "c.png", "d.gif", "e.bmp"] {
        assert!(is_image_file(name), "{} should be recognised", name);
    }
}

#[test]
fn extension_match_ignores_ascii_case() {
    for name in ["a.JPG", "b.Jpeg", "c.PNG", "d.GiF", "e.BMP"] {
        assert!(is_image_file(name), "{} should be recognised", name);
    }
}

#[test]
fn rejects_other_names() {
    for name in [
        "notes.txt",
        "archive.zip",
        "noextension",
        "x.",
        ".DS_Store",
        "",
        "photo.jpg.bak",
        "jpg",
    ] {
        assert!(!is_image_file(name), "{} should be rejected", name);
    }
}

#[test]
fn judges_only_the_final_path_component() {
    assert!(is_image_file("some/dir/photo.png"));
    assert!(!is_image_file("some/photo.png/inner"));
    assert!(!is_image_file("some.png/"));
}

#[test]
fn a_leading_dot_does_not_start_an_extension() {
    assert!(!is_image_file(".png"));
    assert!(is_image_file(".hidden.png"));
}

#[test]
fn zip_extension_is_matched_exactly() {
    assert!(has_zip_extension("a.zip"));
    assert!(has_zip_extension("dir/b.zip"));
    assert!(!has_zip_extension("a.ZIP"));
    assert!(!has_zip_extension("azip"));
    assert!(!has_zip_extension(".zip"));
    assert!(!has_zip_extension("a.zip.bak"));
}

#[test]
fn sorts_names_lexicographically() {
    let names = vec![
        "b".to_string(),
        "a0".to_string(),
        "a".to_string(),
        "b".to_string(),
    ];
    let sorted = sort_names(&names);
    assert_eq!(sorted, vec!["a", "a0", "b", "b"]);
}

#[test]
fn sorting_compares_scalar_values() {
    // Capital letters have smaller scalar values than lowercase ones.
    let names = vec!["a".to_string(), "B".to_string()];
    assert_eq!(sort_names(&names), vec!["B", "a"]);
}

#[test]
fn selects_and_orders_image_entries() {
    let names = vec![
        "02.png".to_string(),
        "readme.txt".to_string(),
        "01.jpg".to_string(),
        "10.GIF".to_string(),
        "cover".to_string(),
    ];
    let selected = select_image_entries(&names);
    assert_eq!(selected, vec!["01.jpg", "02.png", "10.GIF"]);
}

#[test]
fn selection_is_reproducible_whatever_the_input_order() {
    let forward = vec!["a.png".to_string(), "b.png".to_string(), "c.txt".to_string()];
    let backward = vec!["c.txt".to_string(), "b.png".to_string(), "a.png".to_string()];
    assert_eq!(
        select_image_entries(&forward),
        select_image_entries(&backward)
    );
}
