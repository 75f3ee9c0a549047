//! The UUID suffix pattern: an underscore followed by five hyphen-separated
//! groups of hexadecimal digits of widths 8-4-4-4-12, 37 characters in all.
//! Filenames are sanitized by removing every occurrence of the pattern,
//! scanning left to right and taking each leftmost match.

use vstd::prelude::*;

verus! {

/// Total width of one occurrence of the pattern: the underscore, 32 hex
/// digits and 4 hyphens.
pub const UUID_SUFFIX_LEN: usize = 37;

/// A hexadecimal digit of either case.
pub open spec fn is_hex_digit(c: char) -> bool {
    ('0' <= c && c <= '9') || ('a' <= c && c <= 'f') || ('A' <= c && c <= 'F')
}

/// Offsets within an occurrence (counted from the leading underscore) that
/// hold the group-separating hyphens: after groups of 8, 4, 4 and 4 digits.
pub open spec fn is_hyphen_pos(j: int) -> bool {
    j == 9 || j == 14 || j == 19 || j == 24
}

/// The character at offset `j` of an occurrence starting at `i` is what the
/// pattern demands there: a hyphen at the group boundaries, a hex digit
/// elsewhere.
pub open spec fn pattern_char_ok(s: Seq<char>, i: int, j: int) -> bool {
    if is_hyphen_pos(j) {
        s[i + j] == '-'
    } else {
        is_hex_digit(s[i + j])
    }
}

/// An occurrence of the UUID suffix pattern starts at position `i` of `s`.
pub open spec fn uuid_at(s: Seq<char>, i: int) -> bool {
    &&& 0 <= i
    &&& i + UUID_SUFFIX_LEN <= s.len()
    &&& s[i] == '_'
    &&& forall|j: int| 1 <= j < UUID_SUFFIX_LEN ==> #[trigger] pattern_char_ok(s, i, j)
}

/// The pattern occurs somewhere in `s`.
pub open spec fn spec_has_uuid(s: Seq<char>) -> bool {
    exists|i: int| uuid_at(s, i)
}

/// `s` from position `i` on, with every leftmost occurrence of the pattern
/// removed: a kept character advances by one, a match is skipped whole.
pub open spec fn strip_from(s: Seq<char>, i: int) -> Seq<char>
    decreases s.len() - i,
{
    if i < 0 || i >= s.len() {
        Seq::empty()
    } else if uuid_at(s, i) {
        strip_from(s, i + UUID_SUFFIX_LEN)
    } else {
        seq![s[i]] + strip_from(s, i + 1)
    }
}

/// `s` with every occurrence of the pattern removed.
pub open spec fn strip_uuids(s: Seq<char>) -> Seq<char> {
    strip_from(s, 0)
}

/// Runtime check for a hexadecimal digit of either case.
pub fn is_hex_digit_exec(c: char) -> (b: bool)
    ensures
        b == is_hex_digit(c),
{
    ('0' <= c && c <= '9') || ('a' <= c && c <= 'f') || ('A' <= c && c <= 'F')
}

/// Runtime check that an occurrence of the pattern starts at character `i`
/// of `s`, whose character length is `n`.
pub fn uuid_at_exec(s: &str, n: usize, i: usize) -> (b: bool)
    requires
        n == s@.len(),
        i <= n,
    ensures
        b == uuid_at(s@, i as int),
{
    if n - i < UUID_SUFFIX_LEN {
        return false;
    }
    if s.get_char(i) != '_' {
        return false;
    }
    let mut j: usize = 1;
    while j < UUID_SUFFIX_LEN
        invariant
            1 <= j <= UUID_SUFFIX_LEN,
            i + UUID_SUFFIX_LEN <= n,
            n == s@.len(),
            s@[i as int] == '_',
            forall|k: int| 1 <= k < j ==> #[trigger] pattern_char_ok(s@, i as int, k),
        decreases UUID_SUFFIX_LEN - j,
    {
        let c = s.get_char(i + j);
        if j == 9 || j == 14 || j == 19 || j == 24 {
            if c != '-' {
                proof {
                    assert(!uuid_at(s@, i as int)) by {
                        if uuid_at(s@, i as int) {
                            assert(pattern_char_ok(s@, i as int, j as int));
                        }
                    }
                }
                return false;
            }
        } else {
            if !is_hex_digit_exec(c) {
                proof {
                    assert(!uuid_at(s@, i as int)) by {
                        if uuid_at(s@, i as int) {
                            assert(pattern_char_ok(s@, i as int, j as int));
                        }
                    }
                }
                return false;
            }
        }
        proof {
            assert(pattern_char_ok(s@, i as int, j as int));
        }
        j += 1;
    }
    true
}

/// Does the pattern occur anywhere in `name`?
pub fn has_uuid(name: &str) -> (b: bool)
    ensures
        b == spec_has_uuid(name@),
{
    let n: usize = name.unicode_len();
    let mut i: usize = 0;
    while i < n
        invariant
            i <= n,
            n == name@.len(),
            forall|k: int| 0 <= k < i ==> !uuid_at(name@, k),
        decreases n - i,
    {
        if uuid_at_exec(name, n, i) {
            assert(spec_has_uuid(name@));
            return true;
        }
        i += 1;
    }
    proof {
        assert forall|k: int| !uuid_at(name@, k) by {
            if 0 <= k < n {
            } else {
                assert(!uuid_at(name@, k));
            }
        }
    }
    false
}

/// Remove every occurrence of the UUID suffix pattern from `name`, scanning
/// left to right and removing each leftmost match whole.
pub fn sanitize_filename(name: &str) -> (r: String)
    ensures
        r@ == strip_uuids(name@),
{
    let n: usize = name.unicode_len();
    let mut r = String::new();
    let mut i: usize = 0;
    while i < n
        invariant
            i <= n,
            n == name@.len(),
            strip_uuids(name@) == r@ + strip_from(name@, i as int),
        decreases n - i,
    {
        if uuid_at_exec(name, n, i) {
            proof {
                assert(strip_from(name@, i as int) == strip_from(
                    name@,
                    i as int + UUID_SUFFIX_LEN as int,
                ));
            }
            i += UUID_SUFFIX_LEN;
        } else {
            let c = name.get_char(i);
            r.push(c);
            proof {
                assert(strip_from(name@, i as int) == seq![name@[i as int]] + strip_from(
                    name@,
                    i as int + 1,
                ));
                assert(r@ + strip_from(name@, i as int + 1) =~= strip_uuids(name@));
            }
            i += 1;
        }
    }
    proof {
        assert(strip_from(name@, n as int) =~= Seq::<char>::empty());
        assert(r@ + Seq::<char>::empty() =~= r@);
    }
    r
}

/// If the pattern occurs nowhere in `s`, sanitizing leaves `s` unchanged.
pub proof fn lemma_no_match_identity(s: Seq<char>)
    requires
        !spec_has_uuid(s),
    ensures
        strip_uuids(s) == s,
{
    lemma_no_match_from(s, 0);
    assert(s.skip(0) =~= s);
}

proof fn lemma_no_match_from(s: Seq<char>, i: int)
    requires
        0 <= i <= s.len(),
        !spec_has_uuid(s),
    ensures
        strip_from(s, i) == s.skip(i),
    decreases s.len() - i,
{
    if i >= s.len() {
        assert(s.skip(i) =~= Seq::<char>::empty());
    } else {
        assert(!uuid_at(s, i));
        lemma_no_match_from(s, i + 1);
        assert(seq![s[i]] + s.skip(i + 1) =~= s.skip(i));
    }
}

} // verus!
