use metascoop::screenshots::{
    extension_of, find_metadata, has_image_extension, is_image_file, is_screenshot, RepoMetadata,
};

fn names(items: &[&str]) -> Vec<String> {
    items.iter().map(|s| s.to_string()).collect()
}

#[test]
fn extension_is_what_follows_the_last_dot_of_the_file_name() {
    assert_eq!(extension_of("a/b/shot.png"), Some("png".to_string()));
    assert_eq!(extension_of("shot.tar.gz"), Some("gz".to_string()));
    assert_eq!(extension_of("a.b/shot"), None);
    assert_eq!(extension_of("shot"), None);
    assert_eq!(extension_of(""), None);
    assert_eq!(extension_of("dir/.hidden"), None);
    assert_eq!(extension_of(".hidden.png"), Some("png".to_string()));
    assert_eq!(extension_of("shot."), Some(String::new()));
}

#[test]
fn extension_agrees_with_the_standard_library_on_file_paths() {
    let paths = ["a/b/shot.png", "shot.tar.gz", "a.b/shot", "shot", "dir/.hidden", "/x/.a.b", "x.JPG"];
    for path in paths {
        let expected = std::path::Path::new(path)
            .extension()
            .map(|e| e.to_string_lossy().to_string());
        assert_eq!(extension_of(path), expected);
    }
}

#[test]
fn image_extensions_are_png_jpg_and_jpeg() {
    assert!(has_image_extension("png"));
    assert!(has_image_extension("jpg"));
    assert!(has_image_extension("jpeg"));
    assert!(!has_image_extension("PNG"));
    assert!(!has_image_extension("gif"));
    assert!(!has_image_extension(""));
    assert!(!has_image_extension("pngx"));
}

#[test]
fn image_files_are_recognized_in_any_case() {
    assert!(is_image_file("a/b.png"));
    assert!(is_image_file("a/b.PNG"));
    assert!(is_image_file("a/b.Jpg"));
    assert!(is_image_file("b.jpeg"));
    assert!(!is_image_file("b.gif"));
    assert!(!is_image_file("png"));
    assert!(!is_image_file("a.png/b"));
    assert!(!is_image_file(".png"));
}

#[test]
fn screenshots_are_images_with_screenshot_in_their_path() {
    assert!(is_screenshot("repo/fastlane/phoneScreenshots/1.png"));
    assert!(is_screenshot("repo/SCREENSHOT_main.JPG"));
    assert!(is_screenshot("repo/screenshots/a.jpeg"));
    assert!(!is_screenshot("repo/screenshots/readme.md"));
    assert!(!is_screenshot("repo/images/a.png"));
    assert!(!is_screenshot("repo/screen shot.png"));
}

#[test]
fn screenshots_are_picked_in_the_order_given() {
    let files = names(&[
        "r/README.md",
        "r/screenshots/2.png",
        "r/icon.png",
        "r/Screenshots/1.JPG",
        "r/screenshots/notes.txt",
        "r/docs/screenshot-3.jpeg",
    ]);
    assert_eq!(
        find_metadata(&files),
        RepoMetadata {
            screenshots: names(&["r/screenshots/2.png", "r/Screenshots/1.JPG", "r/docs/screenshot-3.jpeg"]),
        }
    );
    assert_eq!(find_metadata(&Vec::new()), RepoMetadata::default());
}
