//! Matching of changed paths against simple watch patterns (`*.ext`,
//! `dir/*.ext`, `dir/**/*.ext` and exact paths).

use vstd::prelude::*;
use crate::strings::{
    chars_of, ends_with_chars, ends_with_seq, find_from, occurs_at, starts_with_chars,
    starts_with_seq,
};

verus! {

/// `s` without its leading `c` characters.
pub open spec fn strip_leading(s: Seq<char>, c: char) -> Seq<char>
    decreases s.len(),
{
    if s.len() > 0 && s[0] == c {
        strip_leading(s.drop_first(), c)
    } else {
        s
    }
}

/// Position of the first occurrence of `n` in `h` at or after `i`, or -1.
pub open spec fn find_seq(h: Seq<char>, n: Seq<char>, i: int) -> int
    decreases h.len() + 1 - i,
{
    if i < 0 || i + n.len() > h.len() {
        -1
    } else if occurs_at(h, n, i) {
        i
    } else {
        find_seq(h, n, i + 1)
    }
}

pub proof fn lemma_find_seq_bounds(h: Seq<char>, n: Seq<char>, i: int)
    ensures
        find_seq(h, n, i) == -1 || (i <= find_seq(h, n, i) && occurs_at(h, n, find_seq(h, n, i))),
    decreases h.len() + 1 - i,
{
    if !(i < 0 || i + n.len() > h.len()) && !occurs_at(h, n, i) {
        lemma_find_seq_bounds(h, n, i + 1);
    }
}

/// `find_seq` gives the first occurrence, when the occurrences are known.
pub proof fn lemma_find_seq_first(h: Seq<char>, n: Seq<char>, j: int, r: Option<int>)
    requires
        0 <= j,
        match r {
            Some(i) => j <= i && occurs_at(h, n, i) && forall|k: int| j <= k < i ==> !occurs_at(h, n, k),
            None => forall|k: int| j <= k ==> !occurs_at(h, n, k),
        },
    ensures
        find_seq(h, n, j) == match r {
            Some(i) => i,
            None => -1,
        },
    decreases h.len() + 1 - j,
{
    if !(j + n.len() > h.len()) && !occurs_at(h, n, j) {
        lemma_find_seq_first(h, n, j + 1, r);
    }
}

/// Simple glob pattern matching:
/// - with `**` occurring once: the path starts with the part before it and
///   the rest of the path matches the part after it (leading `/` removed);
/// - else with a leading `*`: the path ends with what follows the leading
///   stars;
/// - else with exactly one `*`: the path starts with the part before it and
///   ends with the part after it;
/// - without wildcard: the path is the pattern.
pub open spec fn glob_match(path: Seq<char>, pattern: Seq<char>) -> bool
    decreases pattern.len(),
{
    let i = find_seq(pattern, "**"@, 0);
    if i >= 0 {
        proof {
            reveal_strlit("**");
            lemma_find_seq_bounds(pattern, "**"@, 0);
            lemma_strip_leading_len(pattern.skip(i + 2), '/');
        }
        let prefix = pattern.take(i);
        let rest = pattern.skip(i + 2);
        if find_seq(rest, "**"@, 0) < 0 && starts_with_seq(path, prefix) {
            glob_match(path.skip(i), strip_leading(rest, '/'))
        } else {
            false
        }
    } else {
        let k = find_seq(pattern, seq!['*'], 0);
        if k < 0 {
            path == pattern
        } else if k == 0 {
            ends_with_seq(path, strip_leading(pattern, '*'))
        } else if find_seq(pattern.skip(k + 1), seq!['*'], 0) < 0 {
            starts_with_seq(path, pattern.take(k)) && ends_with_seq(path, pattern.skip(k + 1))
        } else {
            false
        }
    }
}

pub proof fn lemma_strip_leading_len(s: Seq<char>, c: char)
    ensures
        strip_leading(s, c).len() <= s.len(),
    decreases s.len(),
{
    if s.len() > 0 && s[0] == c {
        lemma_strip_leading_len(s.drop_first(), c);
    }
}

fn strip_leading_exec(s: &Vec<char>, c: char) -> (r: Vec<char>)
    ensures
        r@ == strip_leading(s@, c),
{
    let mut i: usize = 0;
    assert(s@.skip(0) == s@);
    while i < s.len() && s[i] == c
        invariant
            i <= s.len(),
            strip_leading(s@.skip(i as int), c) == strip_leading(s@, c),
        decreases s.len() - i,
    {
        assert(s@.skip(i as int).drop_first() == s@.skip(i + 1));
        i += 1;
    }
    let mut r: Vec<char> = Vec::new();
    let mut k = i;
    while k < s.len()
        invariant
            i <= k <= s.len(),
            r@ == s@.subrange(i as int, k as int),
        decreases s.len() - k,
    {
        r.push(s[k]);
        k += 1;
        assert(s@.subrange(i as int, k as int) == s@.subrange(i as int, k - 1).push(s@[k - 1]));
    }
    assert(s@.subrange(i as int, s.len() as int) == s@.skip(i as int));
    r
}

fn skip_chars(s: &Vec<char>, from: usize) -> (r: Vec<char>)
    requires
        from <= s.len(),
    ensures
        r@ == s@.skip(from as int),
{
    let mut r: Vec<char> = Vec::new();
    let mut k = from;
    while k < s.len()
        invariant
            from <= k <= s.len(),
            r@ == s@.subrange(from as int, k as int),
        decreases s.len() - k,
    {
        r.push(s[k]);
        k += 1;
        assert(s@.subrange(from as int, k as int) == s@.subrange(from as int, k - 1).push(s@[k - 1]));
    }
    assert(s@.subrange(from as int, s.len() as int) == s@.skip(from as int));
    r
}

fn take_chars(s: &Vec<char>, to: usize) -> (r: Vec<char>)
    requires
        to <= s.len(),
    ensures
        r@ == s@.take(to as int),
{
    let mut r: Vec<char> = Vec::new();
    let mut k: usize = 0;
    while k < to
        invariant
            k <= to <= s.len(),
            r@ == s@.take(k as int),
        decreases to - k,
    {
        r.push(s[k]);
        k += 1;
        assert(s@.take(k as int) == s@.take(k - 1).push(s@[k - 1]));
    }
    r
}

/// First occurrence of `n` in `h`.
fn find_first(h: &Vec<char>, n: &Vec<char>) -> (r: Option<usize>)
    ensures
        find_seq(h@, n@, 0) == match r {
            Some(i) => i as int,
            None => -1,
        },
        r matches Some(i) ==> i + n@.len() <= h@.len(),
{
    let r = find_from(h, n, 0);
    proof {
        lemma_find_seq_first(
            h@,
            n@,
            0,
            match r {
                Some(i) => Some(i as int),
                None => None,
            },
        );
    }
    r
}

fn glob_match_chars(path: &Vec<char>, pattern: &Vec<char>) -> (b: bool)
    ensures
        b == glob_match(path@, pattern@),
    decreases pattern@.len(),
{
    let stars: Vec<char> = vec!['*', '*'];
    proof {
        reveal_strlit("**");
        assert(stars@ =~= "**"@);
        assert(stars@.len() == 2);
    }
    let found = find_first(pattern, &stars);
    match found {
        Some(i) => {
            assert(i + stars@.len() <= pattern@.len());
            assert(stars@.len() == 2);
            assert(i + 2 <= pattern.len());
            let rest = skip_chars(pattern, i + 2);
            let prefix = take_chars(pattern, i);
            if find_first(&rest, &stars).is_some() {
                return false;
            }
            if !starts_with_chars(path, &prefix) {
                return false;
            }
            let remaining = skip_chars(path, i);
            let suffix = strip_leading_exec(&rest, '/');
            proof {
                lemma_strip_leading_len(rest@, '/');
            }
            glob_match_chars(&remaining, &suffix)
        },
        None => {
            let star: Vec<char> = vec!['*'];
            assert(star@ =~= seq!['*']);
            match find_first(pattern, &star) {
                None => {
                    if path.len() != pattern.len() {
                        return false;
                    }
                    let same = starts_with_chars(path, pattern);
                    assert(same ==> path@.take(pattern@.len() as int) == path@);
                    assert(path@ == pattern@ ==> path@.take(pattern@.len() as int) == path@);
                    same
                },
                Some(k) => {
                    if k == 0 {
                        let ext = strip_leading_exec(pattern, '*');
                        ends_with_chars(path, &ext)
                    } else {
                        let tail = skip_chars(pattern, k + 1);
                        if find_first(&tail, &star).is_some() {
                            return false;
                        }
                        let head = take_chars(pattern, k);
                        starts_with_chars(path, &head) && ends_with_chars(path, &tail)
                    }
                },
            }
        },
    }
}

/// Simple glob pattern matching
/// Supports: *.ext, **/*.ext, path/to/*.ext
pub fn matches_glob(path: &str, pattern: &str) -> (b: bool)
    ensures
        b == glob_match(path@, pattern@),
{
    let p = chars_of(path);
    let g = chars_of(pattern);
    glob_match_chars(&p, &g)
}

/// Check if a path matches any of the given patterns
pub fn matches_patterns(path: &str, patterns: &[String]) -> (b: bool)
    ensures
        b == exists|i: int| 0 <= i < patterns@.len() && glob_match(path@, #[trigger] patterns@[i]@),
{
    let mut i: usize = 0;
    while i < patterns.len()
        invariant
            i <= patterns@.len(),
            forall|j: int| 0 <= j < i ==> !glob_match(path@, #[trigger] patterns@[j]@),
        decreases patterns.len() - i,
    {
        if matches_glob(path, patterns[i].as_str()) {
            return true;
        }
        i += 1;
    }
    false
}

/// A pattern without two stars in a row has no `**`.
proof fn lemma_no_double_star(pattern: Seq<char>)
    requires
        forall|a: int, b: int|
            0 <= a < b < pattern.len() && pattern[a] == '*' ==> pattern[b] != '*',
    ensures
        find_seq(pattern, "**"@, 0) == -1,
{
    reveal_strlit("**");
    assert forall|k: int| 0 <= k implies !occurs_at(pattern, "**"@, k) by {
        if occurs_at(pattern, "**"@, k) {
            assert(pattern.subrange(k, k + 2)[0] == '*');
            assert(pattern.subrange(k, k + 2)[1] == '*');
        }
    }
    lemma_find_seq_first(pattern, "**"@, 0, None);
}

/// A pattern without `*` matches exactly the path equal to it.
pub proof fn lemma_glob_without_star(path: Seq<char>, pattern: Seq<char>)
    requires
        forall|j: int| 0 <= j < pattern.len() ==> pattern[j] != '*',
    ensures
        glob_match(path, pattern) <==> path == pattern,
{
    lemma_no_double_star(pattern);
    assert forall|k: int| 0 <= k implies !occurs_at(pattern, seq!['*'], k) by {
        if occurs_at(pattern, seq!['*'], k) {
            assert(pattern.subrange(k, k + 1)[0] == '*');
        }
    }
    lemma_find_seq_first(pattern, seq!['*'], 0, None);
}

/// A pattern with a single `*`, not at its start, matches exactly the
/// paths that start with the part before the `*` and end with the part
/// after it: `src/main/*.java` matches `src/main/App.java` but no `.java`
/// file outside `src/main/`.
pub proof fn lemma_glob_single_inner_star(path: Seq<char>, pattern: Seq<char>, k: int)
    requires
        0 < k < pattern.len(),
        pattern[k] == '*',
        forall|j: int| 0 <= j < pattern.len() && j != k ==> pattern[j] != '*',
    ensures
        glob_match(path, pattern) <==> {
            &&& k <= path.len()
            &&& path.take(k) == pattern.take(k)
            &&& pattern.len() - k - 1 <= path.len()
            &&& path.skip(path.len() - (pattern.len() - k - 1)) == pattern.skip(k + 1)
        },
{
    lemma_no_double_star(pattern);
    assert forall|j: int| 0 <= j < k implies !occurs_at(pattern, seq!['*'], j) by {
        if occurs_at(pattern, seq!['*'], j) {
            assert(pattern.subrange(j, j + 1)[0] == '*');
        }
    }
    assert(occurs_at(pattern, seq!['*'], k)) by {
        assert(pattern.subrange(k, k + 1) =~= seq!['*']);
    }
    lemma_find_seq_first(pattern, seq!['*'], 0, Some(k));
    let rest = pattern.skip(k + 1);
    assert forall|j: int| 0 <= j implies !occurs_at(rest, seq!['*'], j) by {
        if occurs_at(rest, seq!['*'], j) {
            assert(rest.subrange(j, j + 1)[0] == '*');
            assert(pattern[k + 1 + j] == '*');
        }
    }
    lemma_find_seq_first(rest, seq!['*'], 0, None);
    assert(pattern.take(k).len() == k);
    assert(rest.len() == pattern.len() - k - 1);
}

/// A pattern whose only `*` is its first character matches exactly the
/// paths that end with the rest of the pattern (`*.java`).
pub proof fn lemma_glob_leading_star(path: Seq<char>, pattern: Seq<char>)
    requires
        0 < pattern.len(),
        pattern[0] == '*',
        forall|j: int| 0 < j < pattern.len() ==> pattern[j] != '*',
    ensures
        glob_match(path, pattern) <==> {
            &&& pattern.len() - 1 <= path.len()
            &&& path.skip(path.len() - (pattern.len() - 1)) == pattern.skip(1)
        },
{
    lemma_no_double_star(pattern);
    assert(occurs_at(pattern, seq!['*'], 0)) by {
        assert(pattern.subrange(0, 1) =~= seq!['*']);
    }
    lemma_find_seq_first(pattern, seq!['*'], 0, Some(0));
    assert(pattern.drop_first() =~= pattern.skip(1));
    if pattern.len() > 1 {
        assert(pattern.skip(1)[0] == pattern[1]);
        assert(strip_leading(pattern.skip(1), '*') == pattern.skip(1));
    } else {
        assert(strip_leading(pattern.skip(1), '*') == pattern.skip(1));
    }
}

/// A path matching a pattern `prefix**rest` whose prefix has no `*`
/// starts with that prefix (`src/**/*.java` matches only paths under
/// `src/`).
pub proof fn lemma_glob_double_star_prefix(path: Seq<char>, prefix: Seq<char>, rest: Seq<char>)
    requires
        forall|j: int| 0 <= j < prefix.len() ==> prefix[j] != '*',
        glob_match(path, prefix + "**"@ + rest),
    ensures
        prefix.len() <= path.len(),
        path.take(prefix.len() as int) == prefix,
{
    reveal_strlit("**");
    let pattern = prefix + "**"@ + rest;
    let n = prefix.len() as int;
    assert forall|k: int| 0 <= k < n implies !occurs_at(pattern, "**"@, k) by {
        if occurs_at(pattern, "**"@, k) {
            assert(pattern.subrange(k, k + 2)[0] == '*');
            assert(pattern[k] == prefix[k]);
        }
    }
    assert(occurs_at(pattern, "**"@, n)) by {
        assert(pattern.subrange(n, n + 2) =~= "**"@);
    }
    lemma_find_seq_first(pattern, "**"@, 0, Some(n));
    assert(pattern.take(n) =~= prefix);
}

} // verus!
