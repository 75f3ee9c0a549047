use music_fixer::pattern::{has_uuid, sanitize_filename};
use music_fixer::plan::plan_in_place;

#[test]
fn strips_uuid_suffix() {
    let cleaned = sanitize_filename("Song Title_a1b2c3d4-e5f6-7890-abcd-ef1234567890.mp3");
    assert_eq!(cleaned, "Song Title.mp3");
}

#[test]
fn detects_uuid_suffix() {
    assert!(has_uuid("Song Title_a1b2c3d4-e5f6-7890-abcd-ef1234567890.mp3"));
    assert!(!has_uuid("Song Title.mp3"));
}

#[test]
fn no_match_leaves_name_alone() {
    assert_eq!(sanitize_filename("Song Title.mp3"), "Song Title.mp3");
    assert_eq!(plan_in_place("Song Title.mp3"), None);
}

#[test]
fn in_place_rename_strips_suffix() {
    let planned = plan_in_place("Come Together_a1b2c3d4-e5f6-7890-abcd-ef1234567890.mp3");
    assert_eq!(planned, Some(String::from("Come Together.mp3")));
}

#[test]
fn uppercase_hex_matches() {
    let cleaned = sanitize_filename("Song_A1B2C3D4-E5F6-7890-ABCD-EF1234567890.mp3");
    assert_eq!(cleaned, "Song.mp3");
}

#[test]
fn all_occurrences_removed() {
    let name = "A_a1b2c3d4-e5f6-7890-abcd-ef1234567890B_a1b2c3d4-e5f6-7890-abcd-ef1234567890.mp3";
    assert_eq!(sanitize_filename(name), "AB.mp3");
}

#[test]
fn occurrence_in_the_middle_is_removed() {
    let name = "Song_a1b2c3d4-e5f6-7890-abcd-ef1234567890 Title.mp3";
    assert_eq!(sanitize_filename(name), "Song Title.mp3");
}

#[test]
fn non_hex_digit_is_no_match() {
    let name = "Song_g1b2c3d4-e5f6-7890-abcd-ef1234567890.mp3";
    assert!(!has_uuid(name));
    assert_eq!(sanitize_filename(name), name);
}

#[test]
fn wrong_group_widths_are_no_match() {
    let name = "Song_a1b2c3d4e5f6-7890-abcd-ef1234567890.mp3";
    assert!(!has_uuid(name));
    assert_eq!(sanitize_filename(name), name);
}

#[test]
fn missing_underscore_is_no_match() {
    let name = "Song a1b2c3d4-e5f6-7890-abcd-ef1234567890.mp3";
    assert!(!has_uuid(name));
    assert_eq!(sanitize_filename(name), name);
}

#[test]
fn empty_name_stays_empty() {
    assert_eq!(sanitize_filename(""), "");
    assert!(!has_uuid(""));
}

#[test]
fn sanitizing_twice_is_sanitizing_once() {
    let name = "Song Title_a1b2c3d4-e5f6-7890-abcd-ef1234567890.mp3";
    let once = sanitize_filename(name);
    let twice = sanitize_filename(&once);
    assert_eq!(twice, once);
}

#[test]
fn bare_suffix_leaves_extension() {
    let cleaned = sanitize_filename("_a1b2c3d4-e5f6-7890-abcd-ef1234567890.mp3");
    assert_eq!(cleaned, ".mp3");
}
