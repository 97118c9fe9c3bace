use metascoop::filename::{generate_release_filename, sanitize};

#[test]
fn accented_letters_lose_their_marks() {
    assert_eq!(generate_release_filename("Café App", "v1.0"), "Cafe_App_v1.0.apk");
}

#[test]
fn decomposition_happens_before_filtering() {
    // A precomposed letter would be dropped whole if it were filtered as it is.
    assert_eq!(generate_release_filename("\u{e9}", "\u{f1}"), "e_n.apk");
    assert_eq!(sanitize("\u{e9}"), "");
}

#[test]
fn plain_names_pass_unchanged() {
    assert_eq!(generate_release_filename("my-app", "1.2.3"), "my-app_1.2.3.apk");
}

#[test]
fn empty_name_and_tag_leave_the_frame() {
    assert_eq!(generate_release_filename("", ""), "_.apk");
}

#[test]
fn sanitize_drops_punctuation_and_maps_whitespace() {
    assert_eq!(sanitize("a b\tc!d/e"), "a_b_cde");
}

#[test]
fn sanitize_may_leave_nothing() {
    assert_eq!(sanitize("+/()\u{4e2d}\u{6587}"), "");
    assert_eq!(sanitize(""), "");
}

#[test]
fn every_kind_of_whitespace_becomes_an_underscore() {
    assert_eq!(sanitize("a\u{a0}b\u{2003}c\u{3000}d\ne"), "a_b_c_d_e");
}

#[test]
fn punctuation_outside_the_allowed_set_is_dropped() {
    assert_eq!(generate_release_filename("App (beta)!", "v2+build#7"), "App_beta_v2build7.apk");
}

#[test]
fn result_is_ascii_without_whitespace() {
    let names = ["Café App", "日本語 アプリ", "Ünï cödé\u{2028}x", "a\tb\r\nc", "\u{1f600} smile"];
    let tags = ["v1.0", "β-2", " 3 ", "", "１２"];
    for name in names {
        for tag in tags {
            let file = generate_release_filename(name, tag);
            assert!(file.is_ascii());
            assert!(!file.chars().any(|c| c.is_whitespace()));
            assert!(file
                .chars()
                .all(|c| c.is_ascii_alphanumeric() || c == '_' || c == '-' || c == '.'));
            assert!(file.ends_with(".apk"));
        }
    }
}

#[test]
fn same_inputs_give_the_same_name() {
    assert_eq!(
        generate_release_filename("Café App", "v1.0"),
        generate_release_filename("Café App", "v1.0")
    );
}
