//! An abstract model of a whole copy run over the destination tree, and the
//! laws that make repeated runs safe. The destination tree is modelled as
//! the set of full paths of the files present under the destination root;
//! one run visits each discovered source file in order and, where a
//! destination is planned for it, ensures that path is present (the copy is
//! skipped when the path already exists, which adds nothing to the set).

use vstd::prelude::*;
use crate::plan::planned_dest;

verus! {

/// The destination tree after one run: each source file in `paths` whose
/// plan names a destination has that destination present afterwards.
pub open spec fn run_spec(
    paths: Seq<Seq<char>>,
    src_root: Seq<char>,
    dest_root: Seq<char>,
    sep: char,
    fs: Set<Seq<char>>,
) -> Set<Seq<char>>
    decreases paths.len(),
{
    if paths.len() == 0 {
        fs
    } else {
        let fs1 = match planned_dest(paths[0], src_root, dest_root, sep) {
            Some(d) => fs.insert(d),
            None => fs,
        };
        run_spec(paths.skip(1), src_root, dest_root, sep, fs1)
    }
}

/// The destinations one run plans for `paths`, regardless of what already
/// exists.
pub open spec fn dest_set(
    paths: Seq<Seq<char>>,
    src_root: Seq<char>,
    dest_root: Seq<char>,
    sep: char,
) -> Set<Seq<char>>
    decreases paths.len(),
{
    if paths.len() == 0 {
        Set::empty()
    } else {
        let rest = dest_set(paths.skip(1), src_root, dest_root, sep);
        match planned_dest(paths[0], src_root, dest_root, sep) {
            Some(d) => rest.insert(d),
            None => rest,
        }
    }
}

/// A run adds exactly the planned destinations to the tree, whatever was
/// there before.
pub proof fn lemma_run_is_union(
    paths: Seq<Seq<char>>,
    src_root: Seq<char>,
    dest_root: Seq<char>,
    sep: char,
    fs: Set<Seq<char>>,
)
    ensures
        run_spec(paths, src_root, dest_root, sep, fs) == fs.union(
            dest_set(paths, src_root, dest_root, sep),
        ),
    decreases paths.len(),
{
    if paths.len() == 0 {
        assert(fs.union(Set::<Seq<char>>::empty()) =~= fs);
    } else {
        let fs1 = match planned_dest(paths[0], src_root, dest_root, sep) {
            Some(d) => fs.insert(d),
            None => fs,
        };
        lemma_run_is_union(paths.skip(1), src_root, dest_root, sep, fs1);
        assert(fs1.union(dest_set(paths.skip(1), src_root, dest_root, sep)) =~= fs.union(
            dest_set(paths, src_root, dest_root, sep),
        ));
    }
}

/// Idempotence of the copy run: running the same plan twice over the same
/// source files and roots leaves exactly the destination tree that one run
/// leaves — repeats are skipped, nothing is duplicated.
pub proof fn lemma_run_idempotent(
    paths: Seq<Seq<char>>,
    src_root: Seq<char>,
    dest_root: Seq<char>,
    sep: char,
    fs: Set<Seq<char>>,
)
    ensures
        run_spec(
            paths,
            src_root,
            dest_root,
            sep,
            run_spec(paths, src_root, dest_root, sep, fs),
        ) == run_spec(paths, src_root, dest_root, sep, fs),
{
    let once = run_spec(paths, src_root, dest_root, sep, fs);
    let dests = dest_set(paths, src_root, dest_root, sep);
    lemma_run_is_union(paths, src_root, dest_root, sep, fs);
    lemma_run_is_union(paths, src_root, dest_root, sep, once);
    assert(fs.union(dests).union(dests) =~= fs.union(dests));
}

/// After a run, every planned destination is present in the tree: the
/// second run finds each of its destinations already existing and skips
/// every copy.
pub proof fn lemma_run_contains_planned(
    paths: Seq<Seq<char>>,
    src_root: Seq<char>,
    dest_root: Seq<char>,
    sep: char,
    fs: Set<Seq<char>>,
    i: int,
)
    requires
        0 <= i < paths.len(),
        planned_dest(paths[i], src_root, dest_root, sep) is Some,
    ensures
        run_spec(paths, src_root, dest_root, sep, fs).contains(
            planned_dest(paths[i], src_root, dest_root, sep)->0,
        ),
{
    lemma_run_is_union(paths, src_root, dest_root, sep, fs);
    lemma_dest_set_contains(paths, src_root, dest_root, sep, i);
}

/// Every planned destination is in the destination set of the run.
proof fn lemma_dest_set_contains(
    paths: Seq<Seq<char>>,
    src_root: Seq<char>,
    dest_root: Seq<char>,
    sep: char,
    i: int,
)
    requires
        0 <= i < paths.len(),
        planned_dest(paths[i], src_root, dest_root, sep) is Some,
    ensures
        dest_set(paths, src_root, dest_root, sep).contains(
            planned_dest(paths[i], src_root, dest_root, sep)->0,
        ),
    decreases paths.len(),
{
    if i == 0 {
    } else {
        assert(paths.skip(1)[i - 1] == paths[i]);
        lemma_dest_set_contains(paths.skip(1), src_root, dest_root, sep, i - 1);
    }
}

} // verus!
