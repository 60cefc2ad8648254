use images_to_pdf::in_memory_images::InMemoryImages;

#[test]
fn holds_name_and_data() {
    let entry = InMemoryImages::new("page1.png".to_string(), vec![1, 2, 3]);
    assert_eq!(entry.file_name(), "page1.png");
    assert_eq!(entry.data(), &vec![1, 2, 3]);
}

#[test]
fn holds_empty_data() {
    let entry = InMemoryImages::new("empty.bmp".to_string(), Vec::new());
    assert_eq!(entry.file_name(), "empty.bmp");
    assert!(entry.data().is_empty());
}
