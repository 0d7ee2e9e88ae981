//! Verified string helpers: character-wise equality, concatenation, and the
//! scan for a `://` scheme marker.

use vstd::prelude::*;
use vstd::string::StrSliceExecFns;
use vstd::string::StringExecFns;

verus! {

/// True when `a` and `b` hold the same characters.
pub fn str_eq(a: &str, b: &str) -> (r: bool)
    ensures
        r == (a@ == b@),
{
    let n = a.unicode_len();
    let m = b.unicode_len();
    if n != m {
        return false;
    }
    let mut i: usize = 0;
    while i < n
        invariant
            n == a@.len(),
            m == b@.len(),
            n == m,
            i <= n,
            forall|j: int| 0 <= j < i ==> a@[j] == b@[j],
        decreases n - i,
    {
        let ca = a.get_char(i);
        let cb = b.get_char(i);
        if ca != cb {
            return false;
        }
        i += 1;
    }
    proof {
        assert(a@ =~= b@);
    }
    true
}

/// `prefix` followed by `s`, as a new string.
pub fn concat_str(prefix: &str, s: &str) -> (r: String)
    ensures
        r@ == prefix@ + s@,
{
    let mut out = String::from_str(prefix);
    out.append(s);
    out
}

/// A `://` occurrence starting at position `i` of `s`.
pub open spec fn scheme_marker_at(s: Seq<char>, i: int) -> bool {
    s[i] == ':' && s[i + 1] == '/' && s[i + 2] == '/'
}

/// Whether `s` holds a `://` scheme marker anywhere.
pub open spec fn has_scheme_marker(s: Seq<char>) -> bool {
    exists|i: int| 0 <= i && i + 3 <= s.len() && #[trigger] scheme_marker_at(s, i)
}

/// Scans `s` for a `://` scheme marker.
pub fn find_scheme_marker(s: &str) -> (r: bool)
    ensures
        r == has_scheme_marker(s@),
{
    let n = s.unicode_len();
    if n < 3 {
        return false;
    }
    let mut i: usize = 0;
    while i <= n - 3
        invariant
            n == s@.len(),
            3 <= n,
            i <= n,
            forall|j: int| 0 <= j < i ==> !scheme_marker_at(s@, j),
        decreases n - i,
    {
        let c0 = s.get_char(i);
        let c1 = s.get_char(i + 1);
        let c2 = s.get_char(i + 2);
        if c0 == ':' && c1 == '/' && c2 == '/' {
            proof {
                assert(scheme_marker_at(s@, i as int));
            }
            return true;
        }
        i += 1;
    }
    proof {
        if has_scheme_marker(s@) {
            let j = choose|j: int| 0 <= j && j + 3 <= s@.len() && #[trigger] scheme_marker_at(s@, j);
            assert(!scheme_marker_at(s@, j));
        }
    }
    false
}

} // verus!
