use metascoop::index::{latest_index, PackageInfo, RepoIndex};
use metascoop::string_map::StringMap;

fn build(code: i32, name: &str, apk: &str) -> PackageInfo {
    PackageInfo {
        version_code: code,
        version_name: name.to_string(),
        apk_name: apk.to_string(),
        package_name: "org.example.app".to_string(),
        ..PackageInfo::default()
    }
}

fn index_with(builds: Vec<PackageInfo>) -> RepoIndex {
    let mut packages = StringMap::new();
    packages.insert("org.example.app".to_string(), builds);
    RepoIndex {
        repo: serde_json::Value::Null,
        requests: serde_json::Value::Null,
        apps: Vec::new(),
        packages,
    }
}

#[test]
fn default_build_is_empty() {
    let b = PackageInfo::default();
    assert_eq!(b.version_code, 0);
    assert_eq!(b.version_name, "");
    assert_eq!(b.added, 0);
    assert!(b.nativecode.is_empty());
}

#[test]
fn unknown_package_has_no_latest_build() {
    let index = index_with(vec![build(1, "1.0", "a.apk")]);
    assert_eq!(index.find_latest_package("org.example.other"), None);
}

#[test]
fn empty_list_has_no_latest_build() {
    let index = index_with(Vec::new());
    assert_eq!(index.find_latest_package("org.example.app"), None);
    assert_eq!(latest_index(&Vec::new()), None);
}

#[test]
fn single_build_is_the_latest() {
    let index = index_with(vec![build(3, "0.3", "a.apk")]);
    assert_eq!(index.find_latest_package("org.example.app"), Some(build(3, "0.3", "a.apk")));
}

#[test]
fn highest_version_code_wins() {
    let index = index_with(vec![
        build(2, "zzz", "two.apk"),
        build(10, "aaa", "ten.apk"),
        build(9, "9.9", "nine.apk"),
    ]);
    assert_eq!(index.find_latest_package("org.example.app"), Some(build(10, "aaa", "ten.apk")));
}

#[test]
fn version_code_is_compared_as_a_number() {
    let index = index_with(vec![build(-5, "a", "neg.apk"), build(0, "", "zero.apk")]);
    assert_eq!(index.find_latest_package("org.example.app"), Some(build(0, "", "zero.apk")));
}

#[test]
fn version_name_breaks_ties_of_the_version_code() {
    let index = index_with(vec![
        build(7, "1.0-beta", "beta.apk"),
        build(7, "1.0-rc", "rc.apk"),
        build(7, "1.0", "final.apk"),
        build(6, "9.9", "old.apk"),
    ]);
    assert_eq!(index.find_latest_package("org.example.app"), Some(build(7, "1.0-rc", "rc.apk")));
}

#[test]
fn version_names_are_compared_as_text() {
    let index = index_with(vec![build(1, "1.10", "a.apk"), build(1, "1.9", "b.apk")]);
    assert_eq!(index.find_latest_package("org.example.app"), Some(build(1, "1.9", "b.apk")));
}

#[test]
fn among_equal_versions_the_last_listed_wins() {
    let list = vec![
        build(4, "1.0", "first.apk"),
        build(4, "1.0", "second.apk"),
        build(3, "1.0", "older.apk"),
        build(4, "1.0", "third.apk"),
        build(2, "2.0", "oldest.apk"),
    ];
    assert_eq!(latest_index(&list), Some(3));
    let index = index_with(list);
    assert_eq!(index.find_latest_package("org.example.app"), Some(build(4, "1.0", "third.apk")));
}

#[test]
fn latest_build_is_not_older_than_any_other() {
    let list = vec![
        build(1, "b", "1.apk"),
        build(3, "a", "2.apk"),
        build(3, "c", "3.apk"),
        build(2, "z", "4.apk"),
        build(3, "b", "5.apk"),
    ];
    let latest = index_with(list.clone()).find_latest_package("org.example.app").unwrap();
    for other in &list {
        assert!(!latest.is_older_than(other));
        let key = (latest.version_code, latest.version_name.as_str());
        assert!(key >= (other.version_code, other.version_name.as_str()));
    }
    assert_eq!(latest, build(3, "c", "3.apk"));
}

#[test]
fn selection_leaves_the_index_as_it_was() {
    let list = vec![build(2, "b", "2.apk"), build(1, "a", "1.apk"), build(3, "c", "3.apk")];
    let index = index_with(list.clone());
    let _ = index.find_latest_package("org.example.app");
    assert_eq!(index.packages.get("org.example.app"), Some(&list));
}

#[test]
fn builds_are_ordered_by_code_then_name() {
    assert!(build(1, "z", "").is_older_than(&build(2, "a", "")));
    assert!(!build(2, "a", "").is_older_than(&build(1, "z", "")));
    assert!(build(2, "a", "").is_older_than(&build(2, "b", "")));
    assert!(!build(2, "b", "").is_older_than(&build(2, "a", "")));
    assert!(!build(2, "a", "x").is_older_than(&build(2, "a", "y")));
}

#[test]
fn builds_compare_by_all_their_facts() {
    let a = build(1, "1.0", "a.apk");
    assert!(a.same_as(&a.clone()));
    assert!(!a.same_as(&build(1, "1.0", "b.apk")));
    let mut b = a.clone();
    b.nativecode = vec!["arm64-v8a".to_string()];
    assert!(!a.same_as(&b));
    let mut c = a.clone();
    c.size = 1;
    assert!(!a.same_as(&c));
    let mut d = a.clone();
    d.hash = "abc".to_string();
    assert!(!a.same_as(&d));
}
