//! Path decomposition and composition: splitting a path into components on
//! the separator, deriving artist and album from the two directory segments
//! just above a file, normalizing a root, and joining destination paths.

use vstd::prelude::*;

verus! {

/// The components of `s` separated by `sep`. The empty sequence has one
/// empty component; each separator character ends the current component and
/// starts a new one, so `n` separators yield `n + 1` components.
pub open spec fn split_spec(s: Seq<char>, sep: char) -> Seq<Seq<char>>
    decreases s.len(),
{
    if s.len() == 0 {
        seq![Seq::<char>::empty()]
    } else if s[0] == sep {
        seq![Seq::<char>::empty()] + split_spec(s.skip(1), sep)
    } else {
        let rest = split_spec(s.skip(1), sep);
        seq![seq![s[0]] + rest[0]] + rest.skip(1)
    }
}

/// A split always yields at least one component.
pub proof fn lemma_split_len(s: Seq<char>, sep: char)
    ensures
        split_spec(s, sep).len() >= 1,
    decreases s.len(),
{
    if s.len() == 0 {
    } else {
        lemma_split_len(s.skip(1), sep);
    }
}

/// The split of the not-yet-scanned tail, with the partial component read so
/// far glued onto its first element.
spec fn prepend_first(pre: Seq<char>, parts: Seq<Seq<char>>) -> Seq<Seq<char>> {
    seq![pre + parts[0]] + parts.skip(1)
}

/// Split `s` into its components separated by `sep`.
pub fn split_path(s: &str, sep: char) -> (r: Vec<String>)
    ensures
        r.deep_view() == split_spec(s@, sep),
        r@.len() >= 1,
{
    let n: usize = s.unicode_len();
    let mut parts: Vec<String> = Vec::new();
    let mut cur = String::new();
    let mut i: usize = 0;
    proof {
        lemma_split_len(s@, sep);
        assert(s@.skip(0) =~= s@);
        assert(parts.deep_view() + prepend_first(cur@, split_spec(s@.skip(0), sep)) =~~= split_spec(
            s@,
            sep,
        ));
    }
    while i < n
        invariant
            i <= n,
            n == s@.len(),
            split_spec(s@, sep) == parts.deep_view() + prepend_first(
                cur@,
                split_spec(s@.skip(i as int), sep),
            ),
        decreases n - i,
    {
        let ghost tail = s@.skip(i as int);
        proof {
            assert(tail.len() > 0);
            assert(tail[0] == s@[i as int]);
            assert(tail.skip(1) =~= s@.skip(i as int + 1));
            lemma_split_len(s@.skip(i as int + 1), sep);
        }
        let c = s.get_char(i);
        if c == sep {
            parts.push(cur);
            cur = String::new();
            proof {
                assert(split_spec(tail, sep) == seq![Seq::<char>::empty()] + split_spec(
                    s@.skip(i as int + 1),
                    sep,
                ));
                assert(parts.deep_view() + prepend_first(
                    cur@,
                    split_spec(s@.skip(i as int + 1), sep),
                ) =~~= split_spec(s@, sep));
            }
        } else {
            cur.push(c);
            proof {
                let rest = split_spec(s@.skip(i as int + 1), sep);
                assert(split_spec(tail, sep) == seq![seq![tail[0]] + rest[0]] + rest.skip(1));
                assert(parts.deep_view() + prepend_first(cur@, rest) =~~= split_spec(s@, sep));
            }
        }
        i += 1;
    }
    proof {
        assert(s@.skip(n as int) =~= Seq::<char>::empty());
    }
    parts.push(cur);
    proof {
        assert(parts.deep_view() =~~= split_spec(s@, sep));
    }
    parts
}

/// `s` with every trailing separator removed.
pub open spec fn strip_trailing_spec(s: Seq<char>, sep: char) -> Seq<char>
    decreases s.len(),
{
    if s.len() > 0 && s.last() == sep {
        strip_trailing_spec(s.drop_last(), sep)
    } else {
        s
    }
}

/// Remove every trailing separator from `s`, normalizing a root before
/// composition.
pub fn strip_trailing(s: &str, sep: char) -> (r: String)
    ensures
        r@ == strip_trailing_spec(s@, sep),
{
    let n: usize = s.unicode_len();
    let mut end: usize = n;
    proof {
        assert(s@.subrange(0, n as int) =~= s@);
    }
    while end > 0 && s.get_char(end - 1) == sep
        invariant
            end <= n,
            n == s@.len(),
            strip_trailing_spec(s@, sep) == strip_trailing_spec(
                s@.subrange(0, end as int),
                sep,
            ),
        decreases end,
    {
        proof {
            let pre = s@.subrange(0, end as int);
            assert(pre.last() == s@[end - 1]);
            assert(pre.drop_last() =~= s@.subrange(0, end - 1));
        }
        end -= 1;
    }
    let sub = s.substring_char(0, end);
    proof {
        let pre = s@.subrange(0, end as int);
        assert(strip_trailing_spec(pre, sep) == pre);
    }
    String::from_str(sub)
}

/// `dir`, the separator, then `name`.
pub open spec fn join_spec(dir: Seq<char>, name: Seq<char>, sep: char) -> Seq<char> {
    dir + seq![sep] + name
}

/// Join one more component onto a path with the separator between.
pub fn join_path(dir: &str, name: &str, sep: char) -> (r: String)
    ensures
        r@ == join_spec(dir@, name@, sep),
{
    let mut r = String::from_str(dir);
    r.push(sep);
    r.append(name);
    proof {
        assert(r@ =~= join_spec(dir@, name@, sep));
    }
    r
}

/// The directory components of a file's path: every component of the split
/// but the final one, which is the filename.
pub open spec fn dir_components(path: Seq<char>, sep: char) -> Seq<Seq<char>> {
    split_spec(path, sep).drop_last()
}

/// The filename: the final component of the split.
pub open spec fn file_name_of(path: Seq<char>, sep: char) -> Seq<char> {
    split_spec(path, sep).last()
}

/// How many components the normalized source root itself occupies.
pub open spec fn root_depth(root: Seq<char>, sep: char) -> int {
    split_spec(strip_trailing_spec(root, sep), sep).len() as int
}

/// A file's path is deep enough to carry artist and album directories: at
/// least two directory components beyond those of the source root.
pub open spec fn depth_ok(path: Seq<char>, root: Seq<char>, sep: char) -> bool {
    dir_components(path, sep).len() >= root_depth(root, sep) + 2
}

/// The artist and album a track belongs to, read off its position in the
/// tree: album is the directory holding the file, artist the one above it.
pub struct TrackLocation {
    pub artist: String,
    pub album: String,
}

/// A file sat too shallow in the tree for an artist and an album directory
/// to be read off its path.
#[derive(Debug, PartialEq, Eq)]
pub struct PathStructureError;

/// Derive the artist and album for the file at `path` under `source_root`:
/// the last two directory components of the path, provided the path reaches
/// at least two levels below the root.
pub fn resolve_location(path: &str, source_root: &str, sep: char) -> (r: Result<
    TrackLocation,
    PathStructureError,
>)
    ensures
        r is Ok <==> depth_ok(path@, source_root@, sep),
        r matches Ok(loc) ==> {
            let dirs = dir_components(path@, sep);
            &&& loc.artist@ == dirs[dirs.len() - 2]
            &&& loc.album@ == dirs[dirs.len() - 1]
        },
{
    let comps = split_path(path, sep);
    let root_norm = strip_trailing(source_root, sep);
    let root_comps = split_path(root_norm.as_str(), sep);
    if !(comps.len() >= 3 && comps.len() - 3 >= root_comps.len()) {
        assert(!depth_ok(path@, source_root@, sep));
        return Err(PathStructureError);
    }
    let artist = comps[comps.len() - 3].clone();
    let album = comps[comps.len() - 2].clone();
    proof {
        let dirs = dir_components(path@, sep);
        assert(comps.deep_view()[comps@.len() - 3] == split_spec(path@, sep)[comps@.len() - 3]);
        assert(comps.deep_view()[comps@.len() - 2] == split_spec(path@, sep)[comps@.len() - 2]);
        assert(dirs[dirs.len() - 2] == split_spec(path@, sep)[comps@.len() - 3]);
        assert(dirs[dirs.len() - 1] == split_spec(path@, sep)[comps@.len() - 2]);
    }
    Ok(TrackLocation { artist, album })
}

} // verus!
