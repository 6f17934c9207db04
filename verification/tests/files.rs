use qc_analytics::files::{
    decimal, is_image_extension, is_lowercase_image_extension, organize_summary, sort_paths,
};

#[test]
fn image_extensions_in_any_case() {
    for extension in ["jpg", "jpeg", "png", "JPG", "Jpeg", "PNG", "pNg", "jPEG"] {
        assert!(is_image_extension(extension), "{}", extension);
    }
}

#[test]
fn other_extensions_are_no_images() {
    for extension in ["", "gif", "jpg ", ".jpg", "jpe", "jpegs", "pngx", "tiff", "jp\u{e9}g", "txt"] {
        assert!(!is_image_extension(extension), "{}", extension);
    }
}

#[test]
fn lowercase_extensions_are_compared_as_they_are() {
    assert!(is_lowercase_image_extension(&"jpg".to_string()));
    assert!(is_lowercase_image_extension(&"jpeg".to_string()));
    assert!(is_lowercase_image_extension(&"png".to_string()));
    assert!(!is_lowercase_image_extension(&"JPG".to_string()));
    assert!(!is_lowercase_image_extension(&"Png".to_string()));
    assert!(!is_lowercase_image_extension(&String::new()));
}

#[test]
fn paths_are_listed_in_ascending_order() {
    let paths: Vec<String> =
        ["/p/b.jpg", "/p/a.png", "/p/B.jpg", "/p/10.jpg", "/p/9.jpg", "/p/a.jpeg", "/p/a.png"]
            .iter()
            .map(|p| p.to_string())
            .collect();
    let mut wanted = paths.clone();
    wanted.sort();
    assert_eq!(sort_paths(&paths), wanted);
    assert_eq!(
        sort_paths(&paths),
        vec!["/p/10.jpg", "/p/9.jpg", "/p/B.jpg", "/p/a.jpeg", "/p/a.png", "/p/a.png", "/p/b.jpg"]
    );
    assert_eq!(sort_paths(&Vec::new()), Vec::<String>::new());
}

#[test]
fn numbers_in_decimal() {
    assert_eq!(decimal(0), "0");
    assert_eq!(decimal(7), "7");
    assert_eq!(decimal(10), "10");
    assert_eq!(decimal(109), "109");
    assert_eq!(decimal(1234567890), "1234567890");
    assert_eq!(decimal(usize::MAX), usize::MAX.to_string());
    for n in 0..1200 {
        assert_eq!(decimal(n), n.to_string());
    }
}

#[test]
fn outcome_of_organizing_in_words() {
    assert_eq!(
        organize_summary(3, 1, 2, 0),
        "Files organized successfully: 3 files copied (1 Retouch, 2 Retake, 0 Wrong)"
    );
    assert_eq!(
        organize_summary(0, 0, 0, 0),
        "Files organized successfully: 0 files copied (0 Retouch, 0 Retake, 0 Wrong)"
    );
    assert_eq!(
        organize_summary(25, 10, 12, 104),
        "Files organized successfully: 25 files copied (10 Retouch, 12 Retake, 104 Wrong)"
    );
}
