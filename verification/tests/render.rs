use share_home::entry::EntryDetail;
use share_home::entry::EntryType;
use share_home::paths::href_of;
use share_home::paths::parent_of;
use share_home::paths::resolve;
use share_home::paths::resolve_child;
use share_home::text::str_le;
use share_home::text::u64_to_string;

fn segs(parts: &[&str]) -> Vec<String> {
    parts.iter().map(|p| p.to_string()).collect()
}

#[test]
fn decimal_rendering_is_exact() {
    assert_eq!(u64_to_string(0), "0");
    assert_eq!(u64_to_string(7), "7");
    assert_eq!(u64_to_string(42), "42");
    assert_eq!(u64_to_string(1024), "1024");
    assert_eq!(u64_to_string(1234567890), "1234567890");
    assert_eq!(u64_to_string(u64::MAX), "18446744073709551615");
}

#[test]
fn href_is_a_rooted_slash_joined_path() {
    assert_eq!(href_of(&segs(&[])), "/");
    assert_eq!(href_of(&segs(&["a"])), "/a");
    assert_eq!(href_of(&segs(&["a", "b", "c.txt"])), "/a/b/c.txt");
}

#[test]
fn resolve_concatenates_segments() {
    assert_eq!(resolve(&segs(&["home"]), &segs(&["a", "b"])), segs(&["home", "a", "b"]));
    assert_eq!(resolve(&segs(&[]), &segs(&[])), segs(&[]));
    assert_eq!(resolve_child(&segs(&["docs"]), "x.bin".to_string()), segs(&["docs", "x.bin"]));
    assert_eq!(parent_of(&segs(&["a", "b"])), segs(&["a"]));
    assert_eq!(parent_of(&segs(&["a"])), segs(&[]));
}

#[test]
fn ordinal_order_is_case_sensitive() {
    assert!(str_le("B", "a"));
    assert!(!str_le("a", "B"));
    assert!(str_le("abc", "abd"));
    assert!(str_le("ab", "abc"));
    assert!(!str_le("abc", "ab"));
    assert!(str_le("same", "same"));
    assert!(str_le("", "anything"));
}

#[test]
fn file_fragment_shows_size_and_date() {
    let e = EntryDetail::new(
        "report.txt".to_string(),
        segs(&["docs", "report.txt"]),
        EntryType::File,
        Some(2048),
        Some("2022-03-04 05:06:07 +01:00".to_string()),
    );
    let expected = [
        "<li><a href=\"/docs/report.txt\" class=\"icon icon-file\" title=\"report.txt\">",
        "<span class=\"name\">report.txt</span><span class=\"size\">2048</span>",
        "<span class=\"date\">2022-03-04 05:06:07 +01:00</span></a></li>",
    ].concat();
    assert_eq!(e.to_html(), expected);
}

#[test]
fn symlink_renders_with_the_directory_icon() {
    let symlink_to_file = EntryDetail::from_raw(
        "link".to_string(),
        segs(&["d", "link"]),
        false,
        true,
        Some(7),
        Some("2022-01-01 00:00:00 +00:00".to_string()),
    );
    assert_eq!(symlink_to_file.entry_type, EntryType::Directory);
    let plain_dir = EntryDetail::from_raw(
        "link".to_string(),
        segs(&["d", "link"]),
        true,
        true,
        None,
        None,
    );
    assert_eq!(symlink_to_file.to_html(), plain_dir.to_html());
    assert!(symlink_to_file.to_html().contains("class=\"icon icon-directory\""));
}

#[test]
fn directory_entry_carries_no_size_or_date() {
    let d = EntryDetail::from_raw(
        "sub".to_string(),
        segs(&["sub"]),
        true,
        false,
        Some(4096),
        Some("2022-01-01 00:00:00 +00:00".to_string()),
    );
    assert_eq!(d.size, None);
    assert_eq!(d.date, None);
    let f = EntryDetail::from_raw("f".to_string(), segs(&["f"]), false, false, Some(5), None);
    assert_eq!(f.entry_type, EntryType::File);
    assert_eq!(f.size, Some(5));
    assert_eq!(f.date, None);
}

#[test]
fn metadata_timestamp_renders_into_the_date_column() {
    let e = EntryDetail::from_metadata(
        "f".to_string(),
        segs(&["f"]),
        false,
        false,
        Some(5),
        Some((0, 0)),
    );
    let date = e.date.expect("the epoch is representable");
    assert!(date.contains("1970-01-01") || date.contains("1969-12-31"));
    let none = EntryDetail::from_metadata("g".to_string(), segs(&["g"]), false, false, None, None);
    assert_eq!(none.date, None);
}
