use yamaf::names::stored_name;
use yamaf::slug::clean_filename;

fn assert_url_safe(s: &str) {
    for c in s.chars() {
        assert!(c != '/' && c != '\\', "separator in {:?}", s);
        assert!((c as u32) >= 32 && (c as u32) != 127, "control in {:?}", s);
    }
}

#[test]
fn clean_lowercases_and_keeps_alnum_and_dots() {
    assert_eq!(clean_filename("ABC.TXT"), "abc.txt");
    assert_eq!(clean_filename("photo123.jpeg"), "photo123.jpeg");
}

#[test]
fn clean_collapses_runs_to_one_dash() {
    assert_eq!(clean_filename("My File.txt"), "my-file.txt");
    assert_eq!(clean_filename("a   b!!c"), "a-b-c");
}

#[test]
fn clean_trims_dashes_at_both_ends() {
    assert_eq!(clean_filename("---abc---"), "abc");
    assert_eq!(clean_filename("  spaced  "), "spaced");
}

#[test]
fn clean_neutralises_path_separators() {
    assert_eq!(clean_filename("weird/../path"), "weird-..-path");
    assert_eq!(clean_filename("..\\up\\and\\away"), "..-up-and-away");
}

#[test]
fn clean_of_empty_or_all_junk_is_empty() {
    assert_eq!(clean_filename(""), "");
    assert_eq!(clean_filename("///"), "");
}

#[test]
fn stored_name_with_client_name_has_prefix_dash_slug() {
    let n = stored_name(Some("My File.txt"));
    assert_eq!(n.len(), 4 + 1 + "my-file.txt".len());
    let bytes: Vec<char> = n.chars().collect();
    for c in &bytes[0..4] {
        assert!(c.is_ascii_alphanumeric());
    }
    assert_eq!(bytes[4], '-');
    assert_eq!(&n[5..], "my-file.txt");
    assert_url_safe(&n);
}

#[test]
fn stored_name_without_client_name_is_random_upload() {
    let n = stored_name(None);
    assert_eq!(n.len(), 17);
    let bytes: Vec<char> = n.chars().collect();
    for c in &bytes[0..10] {
        assert!(c.is_ascii_alphanumeric());
    }
    assert_eq!(bytes[10], '-');
    assert_eq!(&n[11..], "upload");
    assert_url_safe(&n);
}

#[test]
fn stored_names_for_same_original_differ() {
    let a = stored_name(None);
    let b = stored_name(None);
    let c = stored_name(None);
    assert_ne!(a, b);
    assert_ne!(a, c);
    assert_ne!(b, c);
    let d = stored_name(Some("same.txt"));
    let e = stored_name(Some("same.txt"));
    assert_ne!(d, e);
}

#[test]
fn stored_name_of_hostile_original_is_still_one_segment() {
    let n = stored_name(Some("../../etc/passwd"));
    assert_url_safe(&n);
    assert_eq!(&n[5..], "..-..-etc-passwd");
}
