//! Per-file and per-run decisions: validating the run configuration, and
//! turning one discovered file into the action the shell should take —
//! skip it, or copy it to a computed destination, or rename it in place.

use vstd::prelude::*;
use crate::paths::{
    depth_ok, dir_components, file_name_of, join_path, join_spec, resolve_location, split_path,
    strip_trailing, strip_trailing_spec, split_spec,
};
use crate::pattern::{has_uuid, sanitize_filename, spec_has_uuid, strip_uuids};

verus! {

/// What to do with one file found under the source root.
#[derive(Debug, PartialEq, Eq)]
pub enum FilePlan {
    /// The file sits too shallow for an artist and album to be derived:
    /// report it and go on with the next file.
    SkipDepth,
    /// The filename carries no UUID marker: leave the file alone.
    SkipNoMatch,
    /// Copy the file: create `dest_dir` if missing, then, unless
    /// `dest_file` already exists, copy the bytes there unchanged.
    CopyTo { dest_dir: String, dest_file: String },
}

/// The destination directory for a file at `path`: the normalized
/// destination root, then the artist, then the album.
pub open spec fn planned_dir(path: Seq<char>, dest_root: Seq<char>, sep: char) -> Seq<char> {
    let dirs = dir_components(path, sep);
    join_spec(
        join_spec(strip_trailing_spec(dest_root, sep), dirs[dirs.len() - 2], sep),
        dirs[dirs.len() - 1],
        sep,
    )
}

/// Where the cleaned copy of the file at `path` would land, or `None` where
/// the file is skipped: too shallow under the source root, or no UUID
/// marker in its name.
pub open spec fn planned_dest(
    path: Seq<char>,
    src_root: Seq<char>,
    dest_root: Seq<char>,
    sep: char,
) -> Option<Seq<char>> {
    if !depth_ok(path, src_root, sep) {
        None
    } else if !spec_has_uuid(file_name_of(path, sep)) {
        None
    } else {
        Some(
            join_spec(planned_dir(path, dest_root, sep), strip_uuids(file_name_of(path, sep)), sep),
        )
    }
}

/// Decide what to do with the file at `path`: resolve artist and album from
/// its position under `source_root`, strip the UUID marker from its name,
/// and compose the destination under `dest_root`.
pub fn plan_file(path: &str, source_root: &str, dest_root: &str, sep: char) -> (r: FilePlan)
    ensures
        !depth_ok(path@, source_root@, sep) ==> r == FilePlan::SkipDepth,
        depth_ok(path@, source_root@, sep) && !spec_has_uuid(file_name_of(path@, sep)) ==> r
            == FilePlan::SkipNoMatch,
        depth_ok(path@, source_root@, sep) && spec_has_uuid(file_name_of(path@, sep)) ==> (
        r matches FilePlan::CopyTo { dest_dir, dest_file } && dest_dir@ == planned_dir(
            path@,
            dest_root@,
            sep,
        ) && Some(dest_file@) == planned_dest(path@, source_root@, dest_root@, sep)),
        (r matches FilePlan::CopyTo { .. }) <==> planned_dest(
            path@,
            source_root@,
            dest_root@,
            sep,
        ) is Some,
{
    match resolve_location(path, source_root, sep) {
        Err(_) => FilePlan::SkipDepth,
        Ok(loc) => {
            let comps = split_path(path, sep);
            let fname = &comps[comps.len() - 1];
            proof {
                assert(comps.deep_view()[comps@.len() - 1] == split_spec(path@, sep)[comps@.len()
                    - 1]);
                assert(fname@ == file_name_of(path@, sep));
            }
            if !has_uuid(fname.as_str()) {
                FilePlan::SkipNoMatch
            } else {
                let cleaned = sanitize_filename(fname.as_str());
                let droot = strip_trailing(dest_root, sep);
                let artist_dir = join_path(droot.as_str(), loc.artist.as_str(), sep);
                let album_dir = join_path(artist_dir.as_str(), loc.album.as_str(), sep);
                let dest_file = join_path(album_dir.as_str(), cleaned.as_str(), sep);
                FilePlan::CopyTo { dest_dir: album_dir, dest_file }
            }
        },
    }
}

/// The new name for an in-place rename, or `None` where the filename
/// carries no UUID marker and the file is left alone.
pub fn plan_in_place(name: &str) -> (r: Option<String>)
    ensures
        (r is Some) == spec_has_uuid(name@),
        r matches Some(new_name) ==> new_name@ == strip_uuids(name@),
{
    if has_uuid(name) {
        Some(sanitize_filename(name))
    } else {
        None
    }
}

/// A validated run configuration: either rename within the source tree, or
/// copy into a mirrored tree under a destination root.
#[derive(Debug, PartialEq, Eq)]
pub enum RunMode {
    InPlace,
    CopyMode { dest_root: String },
}

/// A configuration the run must refuse before touching the filesystem.
#[derive(Debug, PartialEq, Eq)]
pub enum ConfigError {
    /// A destination root and the in-place flag were both supplied.
    ConflictingOptions,
    /// Neither a destination root nor the in-place flag was supplied.
    MissingDestination,
}

/// Check that exactly one of a destination root and the in-place flag was
/// supplied, and say which mode the run is in.
pub fn validate_config(dest: Option<String>, modify_in_place: bool) -> (r: Result<
    RunMode,
    ConfigError,
>)
    ensures
        modify_in_place && dest is Some ==> r == Err::<RunMode, ConfigError>(
            ConfigError::ConflictingOptions,
        ),
        modify_in_place && dest is None ==> r == Ok::<RunMode, ConfigError>(RunMode::InPlace),
        !modify_in_place && dest is None ==> r == Err::<RunMode, ConfigError>(
            ConfigError::MissingDestination,
        ),
        !modify_in_place && dest is Some ==> (r matches Ok(RunMode::CopyMode { dest_root })
            && dest_root == dest->0),
{
    match (modify_in_place, dest) {
        (true, Some(_)) => Err(ConfigError::ConflictingOptions),
        (true, None) => Ok(RunMode::InPlace),
        (false, None) => Err(ConfigError::MissingDestination),
        (false, Some(d)) => Ok(RunMode::CopyMode { dest_root: d }),
    }
}

} // verus!
