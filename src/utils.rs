use vstd::prelude::*;
use vstd::string::*;

verus! {

/// `s` with every backslash turned into a forward slash.
pub open spec fn forward_slashes(s: Seq<char>) -> Seq<char> {
    s.map_values(|c: char| if c == '\\' { '/' } else { c })
}

/// `s` ends with `suffix`.
pub open spec fn has_suffix(s: Seq<char>, suffix: Seq<char>) -> bool {
    suffix.len() <= s.len() && s.subrange(s.len() - suffix.len(), s.len() as int) == suffix
}

/// `i` is the position of the first `c` in `s`.
pub open spec fn is_first(s: Seq<char>, c: char, i: int) -> bool {
    0 <= i < s.len() && s[i] == c && forall|j: int| 0 <= j < i ==> s[j] != c
}

/// A path written with forward slashes only.
pub fn to_unix_path(path: &str) -> (r: String)
    ensures
        r@ == forward_slashes(path@),
{
    let n = path.unicode_len();
    let mut r = String::new();
    let mut i: usize = 0;
    while i < n
        invariant
            n == path@.len(),
            i <= n,
            r@ == forward_slashes(path@.take(i as int)),
        decreases n - i,
    {
        let c = path.get_char(i);
        if c == '\\' {
            r.append("/");
        } else {
            r.append(path.substring_char(i, i + 1));
        }
        proof {
            reveal_strlit("/");
            assert(path@.take(i + 1) == path@.take(i as int).push(c));
            assert(path@.subrange(i as int, i + 1) =~= seq![c]);
            assert(r@ =~= forward_slashes(path@.take(i + 1)));
        }
        i += 1;
    }
    proof {
        assert(path@.take(n as int) =~= path@);
    }
    r
}

/// Whether `s` ends with `suffix`.
pub fn ends_with(s: &str, suffix: &str) -> (r: bool)
    ensures
        r == has_suffix(s@, suffix@),
{
    let n = s.unicode_len();
    let m = suffix.unicode_len();
    if m > n {
        return false;
    }
    let start = n - m;
    let mut i: usize = 0;
    while i < m
        invariant
            n == s@.len(),
            m == suffix@.len(),
            start == n - m,
            i <= m,
            forall|j: int| 0 <= j < i ==> s@[start + j] == suffix@[j],
        decreases m - i,
    {
        if s.get_char(start + i) != suffix.get_char(i) {
            proof {
                assert(s@.subrange(start as int, n as int)[i as int] != suffix@[i as int]);
            }
            return false;
        }
        i += 1;
    }
    proof {
        assert(s@.subrange(start as int, n as int) =~= suffix@);
    }
    true
}

/// The position of the first `c` in `s`, if any.
pub fn find_char(s: &str, c: char) -> (r: Option<usize>)
    ensures
        r is None ==> !s@.contains(c),
        r matches Some(i) ==> is_first(s@, c, i as int),
{
    let n = s.unicode_len();
    let mut i: usize = 0;
    while i < n
        invariant
            n == s@.len(),
            i <= n,
            forall|j: int| 0 <= j < i ==> s@[j] != c,
        decreases n - i,
    {
        if s.get_char(i) == c {
            return Some(i);
        }
        i += 1;
    }
    None
}

/// Splits `s` at its first `c`: what comes before it, and what comes after
/// it if `c` occurs.
pub fn split_first(s: &str, c: char) -> (r: (String, Option<String>))
    ensures
        !s@.contains(c) ==> r.0@ == s@ && r.1 is None,
        forall|i: int|
            is_first(s@, c, i) ==> r.0@ == s@.take(i) && (r.1 matches Some(t) && t@ == s@.skip(
                i + 1,
            )),
{
    match find_char(s, c) {
        None => (String::from_str(s), None),
        Some(i) => {
            let n = s.unicode_len();
            proof {
                assert forall|k: int| is_first(s@, c, k) implies k == i by {
                    if k < i {
                        assert(s@[k] != c);
                    } else if k > i {
                        assert(s@[i as int] != c);
                    }
                }
                assert(s@.subrange(0, i as int) =~= s@.take(i as int));
                assert(s@.subrange(i + 1, n as int) =~= s@.skip(i + 1));
            }
            (String::from_str(s.substring_char(0, i)), Some(String::from_str(s.substring_char(i + 1, n))))
        },
    }
}

} // verus!
