use image::codecs::png::PngEncoder;
use image::{ExtendedColorType, ImageEncoder};
use images_to_pdf::image_data_list::{ImageDataList, ImageValidationError};

fn create_dummy_png(width: u32, height: u32, color: u8) -> Vec<u8> {
    let buf = vec![color; (width * height * 3) as usize];
    let mut result = Vec::new();
    let encoder = PngEncoder::new(&mut result);
    encoder
        .write_image(&buf, width, height, ExtendedColorType::Rgb8)
        .expect("encoding the test image failed");
    result
}

#[test]
fn new_empty_returns_empty_error() {
    let res = ImageDataList::new(Vec::new(), "empty_data".to_string());
    assert!(matches!(res, Err(ImageValidationError::EmptyData)));
}

#[test]
fn new_rejects_non_image_and_reports_index() {
    let valid_png = create_dummy_png(1, 1, 0);
    let not_an_image = b"this is not an image".to_vec();
    let data = vec![valid_png, not_an_image];
    let res = ImageDataList::new(data, "test_data".to_string());
    assert!(matches!(
        res,
        Err(ImageValidationError::NotAnImage { index: 1 })
    ));
}

#[test]
fn new_accepts_valid_images_with_same_dimensions() {
    let img1 = create_dummy_png(10, 20, 0);
    let img2 = create_dummy_png(10, 20, 255);
    let data = vec![img1, img2];
    let res = ImageDataList::new(data, "correct_data".to_string()).unwrap();
    assert_eq!(res.max_width(), 10);
    assert_eq!(res.max_height(), 20);
    assert_eq!(res.dimensions(), (10, 20));
    assert_eq!(res.len(), 2);
    assert!(!res.is_empty());
}

#[test]
fn new_calculates_max_dimensions_from_varied_sizes() {
    let img1 = create_dummy_png(100, 50, 0);
    let img2 = create_dummy_png(80, 200, 0);
    let img3 = create_dummy_png(30, 30, 0);
    let data = vec![img1, img2, img3];

    let res = ImageDataList::new(data, "varied_sizes".to_string());

    assert!(res.is_ok());
    let image_list = res.unwrap();
    assert_eq!(image_list.max_width(), 100);
    assert_eq!(image_list.max_height(), 200);
}

#[test]
fn new_works_with_single_image() {
    let img = create_dummy_png(123, 456, 0);
    let res = ImageDataList::new(vec![img], "single_image".to_string()).unwrap();
    assert_eq!(res.max_width(), 123);
    assert_eq!(res.max_height(), 456);
}

#[test]
fn new_keeps_blobs_name_and_length() {
    let img1 = create_dummy_png(4, 5, 10);
    let img2 = create_dummy_png(6, 2, 20);
    let img3 = create_dummy_png(3, 3, 30);
    let data = vec![img1.clone(), img2.clone(), img3.clone()];
    let list = ImageDataList::new(data, "kept".to_string()).unwrap();
    assert_eq!(list.len(), 3);
    assert_eq!(list.images(), &vec![img1, img2, img3]);
    assert_eq!(list.data_name(), "kept");
    assert_eq!(list.max_width(), 6);
    assert_eq!(list.max_height(), 5);
}

#[test]
fn new_reports_every_offending_position() {
    // One non-image blob at each position of a three-element list, with
    // valid images around it.
    for k in 0..3usize {
        let mut data = vec![
            create_dummy_png(2, 2, 0),
            create_dummy_png(3, 3, 0),
            create_dummy_png(4, 4, 0),
        ];
        data[k] = b"garbage, not an image".to_vec();
        let res = ImageDataList::new(data, "one_bad".to_string());
        match res {
            Err(ImageValidationError::NotAnImage { index }) => assert_eq!(index, k),
            other => panic!("expected a rejection at {}, got {:?}", k, other),
        }
    }
}

#[test]
fn new_stops_at_the_first_offending_position() {
    let data = vec![
        create_dummy_png(2, 2, 0),
        b"first bad".to_vec(),
        b"second bad".to_vec(),
    ];
    let res = ImageDataList::new(data, "two_bad".to_string());
    assert!(matches!(
        res,
        Err(ImageValidationError::NotAnImage { index: 1 })
    ));
}

#[test]
fn validation_is_reproducible() {
    let data = vec![create_dummy_png(7, 9, 1), create_dummy_png(11, 3, 2)];
    let first = ImageDataList::new(data.clone(), "again".to_string()).unwrap();
    let second = ImageDataList::new(data, "again".to_string()).unwrap();
    assert_eq!(first, second);
}

#[test]
fn empty_rejection_ignores_the_name() {
    for name in ["", "a", "何か", "another name"] {
        let res = ImageDataList::new(Vec::new(), name.to_string());
        assert!(matches!(res, Err(ImageValidationError::EmptyData)));
    }
}
