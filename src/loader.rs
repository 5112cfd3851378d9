use vstd::prelude::*;
use vstd::string::*;

use crate::options::RuleOptions;
use crate::utils::{ends_with, has_suffix, is_first, split_first};

verus! {

/// A loader, by the path of its script.
pub struct Loader {
    pub path: String,
}

impl Loader {
    pub fn new(path: String) -> (r: Self)
        ensures
            r.path == path,
    {
        Loader { path }
    }
}

/// `s` split at its first `c`: what comes before, and what comes after if
/// `c` occurs.
pub open spec fn split_at_first(s: Seq<char>, c: char) -> (Seq<char>, Option<Seq<char>>) {
    if s.contains(c) {
        let i = choose|i: int| is_first(s, c, i);
        (s.take(i), Some(s.skip(i + 1)))
    } else {
        (s, None)
    }
}

proof fn lemma_split_at_first(s: Seq<char>, c: char, r: (String, Option<String>))
    requires
        !s.contains(c) ==> r.0@ == s && r.1 is None,
        forall|i: int|
            is_first(s, c, i) ==> r.0@ == s.take(i) && (r.1 matches Some(t) && t@ == s.skip(i + 1)),
    ensures
        r.0@ == split_at_first(s, c).0,
        r.1 is None <==> split_at_first(s, c).1 is None,
        r.1 matches Some(t) ==> split_at_first(s, c).1 == Some(t@),
{
    if s.contains(c) {
        let w = choose|w: int| 0 <= w < s.len() && s[w] == c;
        lemma_first_exists(s, c, w);
    }
}

proof fn lemma_first_exists(s: Seq<char>, c: char, w: int)
    requires
        0 <= w < s.len(),
        s[w] == c,
    ensures
        exists|i: int| is_first(s, c, i),
    decreases w,
{
    if exists|j: int| 0 <= j < w && s[j] == c {
        let j = choose|j: int| 0 <= j < w && s[j] == c;
        lemma_first_exists(s, c, j);
    } else {
        assert(is_first(s, c, w));
    }
}

/// A resource split into path, query (after the first `?` before any `#`)
/// and fragment (after the first `#`).
pub open spec fn resource_parts(resource: Seq<char>) -> (
    Seq<char>,
    Option<Seq<char>>,
    Option<Seq<char>>,
) {
    let (rest, fragment) = split_at_first(resource, '#');
    let (path, query) = split_at_first(rest, '?');
    (path, query, fragment)
}

/// Splits a resource into its path, query and fragment.
pub fn parse_resource(resource: &str) -> (r: (String, Option<String>, Option<String>))
    ensures
        ({
            let (path, query, fragment) = resource_parts(resource@);
            &&& r.0@ == path
            &&& r.1 is None <==> query is None
            &&& r.1 matches Some(q) ==> query == Some(q@)
            &&& r.2 is None <==> fragment is None
            &&& r.2 matches Some(f) ==> fragment == Some(f@)
        }),
{
    let (rest, fragment) = split_first(resource, '#');
    proof {
        lemma_split_at_first(resource@, '#', (rest, fragment));
    }
    let (path, query) = split_first(rest.as_str(), '?');
    proof {
        lemma_split_at_first(rest@, '?', (path, query));
    }
    (path, query, fragment)
}

/// Whether a module at `path` falls under a rule with `test`: the path ends
/// with it.
pub fn match_rule(path: &str, test: &str) -> (r: bool)
    ensures
        r == has_suffix(path@, test@),
{
    ends_with(path, test)
}

/// The loader paths of every rule that matches `path`, rule by rule, each
/// rule's loaders in their order.
pub open spec fn matching_loader_paths(path: Seq<char>, rules: Seq<RuleOptions>) -> Seq<Seq<char>>
    decreases rules.len(),
{
    if rules.len() == 0 {
        Seq::empty()
    } else {
        let rule = rules.last();
        matching_loader_paths(path, rules.drop_last()) + if has_suffix(path, rule.test@) {
            rule.use_@.map_values(|u: String| u@)
        } else {
            Seq::empty()
        }
    }
}

/// The loaders that apply to the module at `path_str`.
pub fn find_matching_loaders(path_str: &str, rules: &Vec<RuleOptions>) -> (r: Vec<Loader>)
    ensures
        r@.map_values(|l: Loader| l.path@) == matching_loader_paths(path_str@, rules@),
{
    let mut loaders: Vec<Loader> = Vec::new();
    let mut i: usize = 0;
    while i < rules.len()
        invariant
            i <= rules@.len(),
            loaders@.map_values(|l: Loader| l.path@) == matching_loader_paths(
                path_str@,
                rules@.take(i as int),
            ),
        decreases rules@.len() - i,
    {
        let rule = &rules[i];
        let ghost base = loaders@.map_values(|l: Loader| l.path@);
        proof {
            assert(rules@.take(i + 1).drop_last() =~= rules@.take(i as int));
            assert(rules@.take(i + 1).last() == rule);
        }
        if match_rule(path_str, rule.test.as_str()) {
            let mut j: usize = 0;
            while j < rule.use_.len()
                invariant
                    j <= rule.use_@.len(),
                    loaders@.map_values(|l: Loader| l.path@) == base + rule.use_@.take(
                        j as int,
                    ).map_values(|u: String| u@),
                decreases rule.use_@.len() - j,
            {
                let p = rule.use_[j].clone();
                let ghost before = loaders@;
                loaders.push(Loader { path: p });
                proof {
                    assert(loaders@.map_values(|l: Loader| l.path@) =~= before.map_values(
                        |l: Loader| l.path@,
                    ).push(rule.use_@[j as int]@));
                    assert(rule.use_@.take(j + 1) =~= rule.use_@.take(j as int).push(
                        rule.use_@[j as int],
                    ));
                    assert(loaders@.map_values(|l: Loader| l.path@) =~= base + rule.use_@.take(
                        j + 1,
                    ).map_values(|u: String| u@));
                }
                j += 1;
            }
            proof {
                assert(rule.use_@.take(rule.use_@.len() as int) =~= rule.use_@);
            }
        } else {
            proof {
                assert(base + Seq::<Seq<char>>::empty() =~= base);
            }
        }
        i += 1;
    }
    proof {
        assert(rules@.take(rules@.len() as int) =~= rules@);
    }
    loaders
}

} // verus!
