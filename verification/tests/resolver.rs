use music_fixer::paths::{
    join_path, resolve_location, split_path, strip_trailing, PathStructureError,
};

#[test]
fn decomposes_artist_and_album() {
    let loc = resolve_location(
        "/music/The Beatles/Abbey Road/Come Together_a1b2c3d4-e5f6-7890-abcd-ef1234567890.mp3",
        "/music",
        '/',
    )
    .unwrap();
    assert_eq!(loc.artist, "The Beatles");
    assert_eq!(loc.album, "Abbey Road");
}

#[test]
fn file_directly_under_root_is_an_error() {
    let r = resolve_location("/music/track.mp3", "/music", '/');
    assert_eq!(r.err(), Some(PathStructureError));
}

#[test]
fn file_one_level_down_is_an_error() {
    let r = resolve_location("/music/The Beatles/track.mp3", "/music", '/');
    assert_eq!(r.err(), Some(PathStructureError));
}

#[test]
fn trailing_separator_on_root_is_ignored() {
    let loc = resolve_location("/music/Artist/Album/track.mp3", "/music/", '/').unwrap();
    assert_eq!(loc.artist, "Artist");
    assert_eq!(loc.album, "Album");
}

#[test]
fn backslash_separated_paths_decompose_too() {
    let loc = resolve_location("C:\\music\\Artist\\Album\\track.mp3", "C:\\music", '\\').unwrap();
    assert_eq!(loc.artist, "Artist");
    assert_eq!(loc.album, "Album");
}

#[test]
fn split_keeps_leading_empty_component() {
    let parts = split_path("/a/b", '/');
    assert_eq!(parts, vec![String::new(), String::from("a"), String::from("b")]);
}

#[test]
fn split_of_empty_is_one_empty_component() {
    let parts = split_path("", '/');
    assert_eq!(parts, vec![String::new()]);
}

#[test]
fn strip_trailing_removes_all_trailing_separators() {
    assert_eq!(strip_trailing("/out///", '/'), "/out");
    assert_eq!(strip_trailing("/out", '/'), "/out");
    assert_eq!(strip_trailing("/", '/'), "");
}

#[test]
fn join_inserts_the_separator() {
    assert_eq!(join_path("/out", "x.mp3", '/'), "/out/x.mp3");
    assert_eq!(join_path("C:\\out", "x.mp3", '\\'), "C:\\out\\x.mp3");
}
