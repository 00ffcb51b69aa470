use image_optimizer::file_names::{
    backup_file_name, file_extension, format_from_extension, format_of_file, is_supported_extension,
    staging_file_name, ImageFormat,
};

#[test]
fn test_supported_extensions() {
    assert!(is_supported_extension("jpg"));
    assert!(is_supported_extension("jpeg"));
    assert!(is_supported_extension("png"));
    assert!(is_supported_extension("webp"));
    assert!(!is_supported_extension("gif"));
    assert!(!is_supported_extension("txt"));
}

#[test]
fn extensions_match_in_any_ascii_case() {
    for (ext, format) in [
        ("JPG", ImageFormat::Jpeg),
        ("JpEg", ImageFormat::Jpeg),
        ("PNG", ImageFormat::Png),
        ("WEBP", ImageFormat::Webp),
    ] {
        assert_eq!(format_from_extension(ext), Some(format));
    }
    assert_eq!(format_from_extension("jp"), None);
    assert_eq!(format_from_extension("jpgx"), None);
    assert_eq!(format_from_extension(""), None);
}

#[test]
fn extension_of_file_names() {
    assert_eq!(file_extension("photo.jpg"), Some("jpg"));
    assert_eq!(file_extension("archive.tar.gz"), Some("gz"));
    assert_eq!(file_extension(".hidden"), None);
    assert_eq!(file_extension(".hidden.png"), Some("png"));
    assert_eq!(file_extension("noext"), None);
    assert_eq!(file_extension("trailing."), Some(""));
}

#[test]
fn format_of_file_from_name() {
    assert_eq!(format_of_file("test_upper.JPG"), Some(ImageFormat::Jpeg));
    assert_eq!(format_of_file("test_upper.JPEG"), Some(ImageFormat::Jpeg));
    assert_eq!(format_of_file("test_upper.PNG"), Some(ImageFormat::Png));
    assert_eq!(format_of_file("test_upper.WEBP"), Some(ImageFormat::Webp));
    assert_eq!(format_of_file("test.txt"), None);
    assert_eq!(format_of_file("png"), None);
}

#[test]
fn staging_names_sit_beside_the_file() {
    assert_eq!(staging_file_name("image.png"), "image.tmp.png");
    assert_eq!(staging_file_name("a.b.JPG"), "a.b.tmp.JPG");
    assert_eq!(staging_file_name("noext"), "noext.tmp.jpg");
}

#[test]
fn backup_names_append_bak() {
    assert_eq!(backup_file_name("image.jpg"), "image.jpg.bak");
    assert_eq!(backup_file_name("noext"), "noext..bak");
}
