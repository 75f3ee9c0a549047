use music_fixer::plan::{plan_file, validate_config, ConfigError, FilePlan, RunMode};

#[test]
fn composes_destination_without_trailing_separator() {
    let plan = plan_file(
        "/music/The Beatles/Abbey Road/Come Together_a1b2c3d4-e5f6-7890-abcd-ef1234567890.mp3",
        "/music",
        "/out/",
        '/',
    );
    assert_eq!(
        plan,
        FilePlan::CopyTo {
            dest_dir: String::from("/out/The Beatles/Abbey Road"),
            dest_file: String::from("/out/The Beatles/Abbey Road/Come Together.mp3"),
        }
    );
}

#[test]
fn shallow_file_is_skipped_with_depth_error() {
    let plan = plan_file(
        "/music/track_a1b2c3d4-e5f6-7890-abcd-ef1234567890.mp3",
        "/music",
        "/out",
        '/',
    );
    assert_eq!(plan, FilePlan::SkipDepth);
}

#[test]
fn name_without_marker_is_skipped() {
    let plan = plan_file("/music/Artist/Album/Song Title.mp3", "/music", "/out", '/');
    assert_eq!(plan, FilePlan::SkipNoMatch);
}

#[test]
fn planning_twice_gives_the_same_plan() {
    let path = "/music/Artist/Album/track_a1b2c3d4-e5f6-7890-abcd-ef1234567890.mp3";
    let first = plan_file(path, "/music", "/out", '/');
    let second = plan_file(path, "/music", "/out", '/');
    assert_eq!(first, second);
}

#[test]
fn both_destination_and_in_place_conflict() {
    let r = validate_config(Some(String::from("/out")), true);
    assert_eq!(r, Err(ConfigError::ConflictingOptions));
}

#[test]
fn neither_destination_nor_in_place_is_an_error() {
    let r = validate_config(None, false);
    assert_eq!(r, Err(ConfigError::MissingDestination));
}

#[test]
fn in_place_alone_is_accepted() {
    let r = validate_config(None, true);
    assert_eq!(r, Ok(RunMode::InPlace));
}

#[test]
fn destination_alone_is_accepted() {
    let r = validate_config(Some(String::from("/out")), false);
    assert_eq!(r, Ok(RunMode::CopyMode { dest_root: String::from("/out") }));
}
