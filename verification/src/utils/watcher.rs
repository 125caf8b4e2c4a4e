//! Watch patterns for auto-reload: cleaning up the configured globs and
//! deciding whether changed paths match them, with matching done by the
//! `globset` crate.

use vstd::prelude::*;
use globset::{Glob, GlobSet, GlobSetBuilder};
use crate::strings::{
    chars_of, concat2, contains_string, push_char, starts_with_seq, string_from_range, texts,
    trim_seq, trim_text,
};

verus! {

#[verifier::external_type_specification]
#[verifier::external_body]
pub struct ExGlob(Glob);

#[verifier::external_type_specification]
#[verifier::external_body]
pub struct ExGlobSet(GlobSet);

#[verifier::external_type_specification]
#[verifier::external_body]
pub struct ExGlobSetBuilder(GlobSetBuilder);

#[verifier::external_type_specification]
#[verifier::external_body]
pub struct ExGlobError(globset::Error);

/// Whether `Glob::new` accepts a pattern (default options).
pub uninterp spec fn glob_valid(pattern: Seq<char>) -> bool;

/// Whether the glob `pattern` (default options) matches `path`.
pub uninterp spec fn glob_matches(pattern: Seq<char>, path: Seq<char>) -> bool;

/// Whether `GlobSetBuilder::build` succeeds for globs with these patterns,
/// added in this order.
pub uninterp spec fn glob_set_builds(patterns: Seq<Seq<char>>) -> bool;

/// The patterns of the globs added to a builder, in the order of addition.
pub uninterp spec fn builder_patterns(builder: GlobSetBuilder) -> Seq<Seq<char>>;

/// The patterns of the globs a set was built from, in order.
pub uninterp spec fn set_patterns(set: GlobSet) -> Seq<Seq<char>>;

/// A glob together with the pattern it was compiled from.
pub struct CompiledGlob {
    pattern: String,
    glob: Glob,
}

impl CompiledGlob {
    /// The pattern the glob was compiled from.
    pub closed spec fn pattern_of(&self) -> Seq<char> {
        self.pattern@
    }
}

/// `Glob::new`: compiles `pattern`, failing exactly when it is not a valid
/// glob.
#[verifier::external_body]
fn compile_glob(pattern: &str) -> (r: Result<CompiledGlob, globset::Error>)
    ensures
        r is Ok <==> glob_valid(pattern@),
        r matches Ok(g) ==> g.pattern_of() == pattern@,
{
    match Glob::new(pattern) {
        Ok(glob) => Ok(CompiledGlob { pattern: pattern.to_string(), glob }),
        Err(e) => Err(e),
    }
}

/// `GlobSetBuilder::new`: a builder holding no glob.
#[verifier::external_body]
fn new_glob_set_builder() -> (b: GlobSetBuilder)
    ensures
        builder_patterns(b) == Seq::<Seq<char>>::empty(),
{
    GlobSetBuilder::new()
}

/// `GlobSetBuilder::add`: appends a glob to the builder.
#[verifier::external_body]
fn add_glob(builder: &mut GlobSetBuilder, glob: CompiledGlob)
    ensures
        builder_patterns(*final(builder)) == builder_patterns(*old(builder)).push(
            glob.pattern_of(),
        ),
{
    builder.add(glob.glob);
}

/// `GlobSetBuilder::build`: a set of all globs added so far; it fails or
/// not according to those globs alone.
#[verifier::external_body]
fn finish_glob_set(builder: &GlobSetBuilder) -> (r: Result<GlobSet, globset::Error>)
    ensures
        r is Ok <==> glob_set_builds(builder_patterns(*builder)),
        r matches Ok(s) ==> set_patterns(s) == builder_patterns(*builder),
{
    builder.build()
}

/// `GlobSet::is_match`: whether any glob of the set matches `path`.
#[verifier::external_body]
fn glob_set_is_match(set: &GlobSet, path: &str) -> (r: bool)
    ensures
        r == (exists|i: int|
            0 <= i < set_patterns(*set).len() && glob_matches(
                #[trigger] set_patterns(*set)[i],
                path@,
            )),
{
    set.is_match(path)
}

/// The patterns of `ps` that compile as globs, in order.
pub open spec fn compilable(ps: Seq<Seq<char>>) -> Seq<Seq<char>> {
    ps.filter(|p: Seq<char>| glob_valid(p))
}

/// Whether a set can be built from the compilable patterns of `ps`: there
/// is at least one, and the set builds.
pub open spec fn set_is_built(ps: Seq<Seq<char>>) -> bool {
    compilable(ps).len() > 0 && glob_set_builds(compilable(ps))
}

/// Whether some compilable pattern of `ps` matches `path`, when a set can be
/// built from them; when none can, every path is taken to match.
pub open spec fn pattern_set_matches(ps: Seq<Seq<char>>, path: Seq<char>) -> bool {
    if set_is_built(ps) {
        exists|i: int| 0 <= i < compilable(ps).len() && glob_matches(#[trigger] compilable(ps)[i], path)
    } else {
        true
    }
}

/// Builds one glob set from the patterns that compile; patterns that do not
/// compile are skipped. Gives `None` when no pattern compiles or the set
/// cannot be built.
pub fn build_glob_set(patterns: &[String]) -> (r: Option<GlobSet>)
    ensures
        r is Some <==> set_is_built(texts(patterns@)),
        r matches Some(s) ==> set_patterns(s) == compilable(texts(patterns@)),
{
    let mut builder = new_glob_set_builder();
    let mut added = false;
    let mut i: usize = 0;
    while i < patterns.len()
        invariant
            i <= patterns.len(),
            builder_patterns(builder) == compilable(texts(patterns@.take(i as int))),
            added == (builder_patterns(builder).len() > 0),
        decreases patterns.len() - i,
    {
        proof {
            let before = texts(patterns@.take(i as int));
            let after = texts(patterns@.take(i + 1));
            assert(after.drop_last() =~= before);
            assert(after.last() == patterns@[i as int]@);
            reveal(Seq::filter);
        }
        match compile_glob(patterns[i].as_str()) {
            Ok(glob) => {
                add_glob(&mut builder, glob);
                added = true;
            },
            Err(_) => {},
        }
        i += 1;
    }
    assert(patterns@.take(patterns.len() as int) =~= patterns@);
    if added {
        match finish_glob_set(&builder) {
            Ok(set) => Some(set),
            Err(_) => None,
        }
    } else {
        None
    }
}

/// `s` with every backslash turned into a forward slash.
pub open spec fn forward_slashes(s: Seq<char>) -> Seq<char> {
    s.map_values(|c: char| if c == '\\' { '/' } else { c })
}

/// `s` without any number of leading `./`.
pub open spec fn strip_dot_slash(s: Seq<char>) -> Seq<char>
    decreases s.len(),
{
    if s.len() >= 2 && s[0] == '.' && s[1] == '/' {
        strip_dot_slash(s.skip(2))
    } else {
        s
    }
}

/// The pattern that matches `p` below any directory.
pub open spec fn under_any_dir(p: Seq<char>) -> Seq<char> {
    seq!['*', '*', '/'] + p
}

/// `acc` with `x` appended, unless `acc` already holds it.
pub open spec fn push_unique(acc: Seq<Seq<char>>, x: Seq<char>) -> Seq<Seq<char>> {
    if acc.contains(x) {
        acc
    } else {
        acc.push(x)
    }
}

/// A configured pattern with forward slashes, trimmed.
pub open spec fn trimmed_pattern(p: Seq<char>) -> Seq<char> {
    trim_seq(forward_slashes(p))
}

/// A configured pattern cleaned up: forward slashes, trimmed, no leading
/// `./`.
pub open spec fn cleaned_pattern(p: Seq<char>) -> Seq<char> {
    strip_dot_slash(trimmed_pattern(p))
}

/// The patterns collected so far, after taking in one more configured
/// pattern: nothing for a blank one; otherwise its cleaned form and, unless
/// that already starts with `**/`, the form that matches below any
/// directory, each only if not yet present.
pub open spec fn normalize_step(acc: Seq<Seq<char>>, p: Seq<char>) -> Seq<Seq<char>> {
    if trimmed_pattern(p).len() == 0 {
        acc
    } else {
        let q = cleaned_pattern(p);
        let with_q = push_unique(acc, q);
        if starts_with_seq(q, seq!['*', '*', '/']) {
            with_q
        } else {
            push_unique(with_q, under_any_dir(q))
        }
    }
}

/// The normalized form of a list of configured patterns.
pub open spec fn normalized(ps: Seq<Seq<char>>) -> Seq<Seq<char>>
    decreases ps.len(),
{
    if ps.len() == 0 {
        Seq::empty()
    } else {
        normalize_step(normalized(ps.drop_last()), ps.last())
    }
}

/// Appending with `push_unique` keeps every element already present, adds
/// `x`, adds nothing else, and keeps a duplicate-free sequence free of
/// duplicates.
pub proof fn lemma_push_unique(acc: Seq<Seq<char>>, x: Seq<char>)
    ensures
        push_unique(acc, x).contains(x),
        forall|y: Seq<char>| acc.contains(y) ==> #[trigger] push_unique(acc, x).contains(y),
        forall|y: Seq<char>| #[trigger] push_unique(acc, x).contains(y) ==> acc.contains(y) || y == x,
        acc.no_duplicates() ==> push_unique(acc, x).no_duplicates(),
{
    let r = push_unique(acc, x);
    if !acc.contains(x) {
        assert(r[acc.len() as int] == x);
        assert forall|y: Seq<char>| acc.contains(y) implies r.contains(y) by {
            let k = choose|k: int| 0 <= k < acc.len() && acc[k] == y;
            assert(r[k] == y);
        }
        assert forall|y: Seq<char>| r.contains(y) implies acc.contains(y) || y == x by {
            let k = choose|k: int| 0 <= k < r.len() && r[k] == y;
            if k < acc.len() {
                assert(acc[k] == y);
            }
        }
        if acc.no_duplicates() {
            assert forall|a: int, b: int| 0 <= a < r.len() && 0 <= b < r.len() && a != b implies r[a]
                != r[b] by {
                if a == acc.len() {
                    assert(acc[b] == r[b]);
                } else if b == acc.len() {
                    assert(acc[a] == r[a]);
                }
            }
        }
    }
}

/// One normalization step keeps what was collected before.
proof fn lemma_step_keeps(acc: Seq<Seq<char>>, p: Seq<char>)
    ensures
        forall|y: Seq<char>| acc.contains(y) ==> #[trigger] normalize_step(acc, p).contains(y),
        acc.no_duplicates() ==> normalize_step(acc, p).no_duplicates(),
{
    if trimmed_pattern(p).len() > 0 {
        let q = cleaned_pattern(p);
        lemma_push_unique(acc, q);
        lemma_push_unique(push_unique(acc, q), under_any_dir(q));
    }
}

/// Normalization never lists a pattern twice.
pub proof fn lemma_normalized_no_duplicates(ps: Seq<Seq<char>>)
    ensures
        normalized(ps).no_duplicates(),
    decreases ps.len(),
{
    if ps.len() > 0 {
        lemma_normalized_no_duplicates(ps.drop_last());
        lemma_step_keeps(normalized(ps.drop_last()), ps.last());
    }
}

/// Every non-blank configured pattern is kept in its cleaned form and, unless
/// that starts with `**/`, also in the form that matches below any directory.
pub proof fn lemma_normalized_covers(ps: Seq<Seq<char>>, i: int)
    requires
        0 <= i < ps.len(),
        trimmed_pattern(ps[i]).len() > 0,
    ensures
        normalized(ps).contains(cleaned_pattern(ps[i])),
        !starts_with_seq(cleaned_pattern(ps[i]), seq!['*', '*', '/']) ==> normalized(ps).contains(
            under_any_dir(cleaned_pattern(ps[i])),
        ),
    decreases ps.len(),
{
    let prev = normalized(ps.drop_last());
    let q = cleaned_pattern(ps[i]);
    if i == ps.len() - 1 {
        lemma_push_unique(prev, q);
        lemma_push_unique(push_unique(prev, q), under_any_dir(q));
    } else {
        lemma_normalized_covers(ps.drop_last(), i);
        assert(ps.drop_last()[i] == ps[i]);
        lemma_step_keeps(prev, ps.last());
    }
}

/// Normalization adds nothing but the cleaned form of a non-blank configured
/// pattern or that form below any directory.
pub proof fn lemma_normalized_only_from_patterns(ps: Seq<Seq<char>>, x: Seq<char>)
    requires
        normalized(ps).contains(x),
    ensures
        exists|k: int|
            0 <= k < ps.len() && trimmed_pattern(#[trigger] ps[k]).len() > 0 && (x
                == cleaned_pattern(ps[k]) || x == under_any_dir(cleaned_pattern(ps[k]))),
    decreases ps.len(),
{
    let prev = normalized(ps.drop_last());
    let p = ps.last();
    let k = ps.len() - 1;
    if trimmed_pattern(p).len() > 0 {
        let q = cleaned_pattern(p);
        lemma_push_unique(prev, q);
        lemma_push_unique(push_unique(prev, q), under_any_dir(q));
    }
    if prev.contains(x) {
        lemma_normalized_only_from_patterns(ps.drop_last(), x);
        let j = choose|j: int|
            0 <= j < ps.drop_last().len() && trimmed_pattern(#[trigger] ps.drop_last()[j]).len() > 0
                && (x == cleaned_pattern(ps.drop_last()[j]) || x == under_any_dir(
                cleaned_pattern(ps.drop_last()[j]),
            ));
        assert(ps[j] == ps.drop_last()[j]);
    } else {
        assert(ps[k] == p);
    }
}

/// With no watch pattern configured, every changed path counts.
pub proof fn lemma_no_patterns_match_everything(path: Seq<char>)
    ensures
        pattern_set_matches(normalized(Seq::<Seq<char>>::empty()), path),
{
    reveal(Seq::filter);
    assert(normalized(Seq::<Seq<char>>::empty()) =~= Seq::<Seq<char>>::empty());
    assert(compilable(Seq::<Seq<char>>::empty()).len() == 0);
}

/// `s` with backslashes turned into forward slashes.
fn to_forward_slashes(s: &str) -> (r: String)
    ensures
        r@ == forward_slashes(s@),
{
    let cs = chars_of(s);
    let mut r = String::new();
    let mut i: usize = 0;
    while i < cs.len()
        invariant
            i <= cs.len(),
            cs@ == s@,
            r@ == forward_slashes(s@).take(i as int),
        decreases cs.len() - i,
    {
        let c = cs[i];
        if c == '\\' {
            push_char(&mut r, '/');
        } else {
            push_char(&mut r, c);
        }
        assert(forward_slashes(s@).take(i + 1) =~= forward_slashes(s@).take(i as int).push(
            forward_slashes(s@)[i as int],
        ));
        i += 1;
    }
    assert(forward_slashes(s@).take(cs.len() as int) =~= forward_slashes(s@));
    r
}

/// `s` without any number of leading `./`.
fn without_dot_slash(s: &str) -> (r: String)
    ensures
        r@ == strip_dot_slash(s@),
{
    let cs = chars_of(s);
    let mut i: usize = 0;
    assert(cs@.skip(0) =~= cs@);
    while cs.len() - i >= 2 && cs[i] == '.' && cs[i + 1] == '/'
        invariant
            i <= cs.len(),
            cs@ == s@,
            strip_dot_slash(cs@.skip(i as int)) == strip_dot_slash(s@),
        decreases cs.len() - i,
    {
        assert(cs@.skip(i as int).skip(2) =~= cs@.skip(i + 2));
        i += 2;
    }
    assert(cs@.subrange(i as int, cs.len() as int) =~= cs@.skip(i as int));
    string_from_range(&cs, i, cs.len())
}

/// Whether `s` starts with `**/`.
fn starts_with_any_dir(s: &str) -> (b: bool)
    ensures
        b == starts_with_seq(s@, seq!['*', '*', '/']),
{
    let cs = chars_of(s);
    let b = cs.len() >= 3 && cs[0] == '*' && cs[1] == '*' && cs[2] == '/';
    assert(b ==> cs@.take(3) =~= seq!['*', '*', '/']);
    assert(starts_with_seq(s@, seq!['*', '*', '/']) ==> cs@.take(3)[0] == '*' && cs@.take(3)[1]
        == '*' && cs@.take(3)[2] == '/');
    b
}

/// Cleans up configured watch patterns: backslashes become forward slashes,
/// surrounding whitespace and leading `./` are dropped, blank patterns are
/// skipped, and each pattern that does not start with `**/` is followed by
/// its `**/` form so that it matches below any directory; nothing occurs
/// twice.
pub fn normalize_patterns(patterns: Vec<String>) -> (r: Vec<String>)
    ensures
        texts(r@) == normalized(texts(patterns@)),
{
    let mut out: Vec<String> = Vec::new();
    let mut i: usize = 0;
    while i < patterns.len()
        invariant
            i <= patterns.len(),
            texts(out@) == normalized(texts(patterns@.take(i as int))),
        decreases patterns.len() - i,
    {
        proof {
            let before = texts(patterns@.take(i as int));
            let after = texts(patterns@.take(i + 1));
            assert(after.drop_last() =~= before);
            assert(after.last() == patterns@[i as int]@);
        }
        let slashed = to_forward_slashes(patterns[i].as_str());
        let t = trim_text(slashed.as_str());
        if !t.as_str().is_empty() {
            let q = without_dot_slash(t.as_str());
            let ghost old_out = texts(out@);
            if !contains_string(&out, q.as_str()) {
                let q2 = q.clone();
                out.push(q2);
                assert(texts(out@) =~= old_out.push(q@));
            }
            let ghost mid = texts(out@);
            assert(mid == push_unique(old_out, q@));
            if !starts_with_any_dir(q.as_str()) {
                let prefixed = concat2(any_dir_prefix().as_str(), q.as_str());
                if !contains_string(&out, prefixed.as_str()) {
                    out.push(prefixed);
                    assert(texts(out@) =~= mid.push(under_any_dir(q@)));
                }
            }
        } else {
            assert(t@.len() == 0);
        }
        i += 1;
    }
    assert(patterns@.take(patterns.len() as int) =~= patterns@);
    out
}

/// The text `**/`.
fn any_dir_prefix() -> (r: String)
    ensures
        r@ == seq!['*', '*', '/'],
{
    let mut r = String::new();
    push_char(&mut r, '*');
    push_char(&mut r, '*');
    push_char(&mut r, '/');
    r
}

/// Whether `path` matches the watch `patterns`: the patterns are normalized
/// as the watcher does, backslashes in the path count as separators, and
/// when no glob set can be built from the patterns every path matches.
pub fn matches_patterns(path: &str, patterns: &[String]) -> (b: bool)
    ensures
        b == pattern_set_matches(normalized(texts(patterns@)), forward_slashes(path@)),
{
    let mut owned: Vec<String> = Vec::new();
    let mut i: usize = 0;
    while i < patterns.len()
        invariant
            i <= patterns.len(),
            owned@.len() == i,
            forall|j: int| 0 <= j < i ==> owned@[j] == patterns@[j],
        decreases patterns.len() - i,
    {
        let p = patterns[i].clone();
        owned.push(p);
        i += 1;
    }
    assert(owned@ =~= patterns@);
    let normalized_patterns = normalize_patterns(owned);
    let slashed = to_forward_slashes(path);
    match build_glob_set(normalized_patterns.as_slice()) {
        Some(set) => glob_set_is_match(&set, slashed.as_str()),
        None => true,
    }
}

/// Whether the watcher counts a change to `path` (relative to the watched
/// root): with a built set, whether one of its globs matches the path as
/// given; without one, as `matches_patterns` decides.
pub open spec fn path_is_watched(
    patterns: Seq<Seq<char>>,
    pattern_set: Option<GlobSet>,
    path: Seq<char>,
) -> bool {
    match pattern_set {
        Some(set) => exists|i: int|
            0 <= i < set_patterns(set).len() && glob_matches(#[trigger] set_patterns(set)[i], path),
        None => pattern_set_matches(normalized(patterns), forward_slashes(path)),
    }
}

/// Whether a file event on `paths` (each relative to the watched root)
/// concerns the watched files: always when no pattern is configured,
/// otherwise when one of the paths is watched.
pub fn event_matches_patterns(
    patterns: &[String],
    pattern_set: &Option<GlobSet>,
    paths: &[String],
) -> (b: bool)
    ensures
        b == (patterns@.len() == 0 || exists|k: int|
            0 <= k < paths@.len() && path_is_watched(
                texts(patterns@),
                *pattern_set,
                #[trigger] paths@[k]@,
            )),
{
    if patterns.len() == 0 {
        return true;
    }
    let mut k: usize = 0;
    while k < paths.len()
        invariant
            k <= paths.len(),
            patterns@.len() > 0,
            forall|j: int| 0 <= j < k ==> !path_is_watched(texts(patterns@), *pattern_set, #[trigger] paths@[j]@),
        decreases paths.len() - k,
    {
        let hit = match pattern_set {
            Some(set) => glob_set_is_match(set, paths[k].as_str()),
            None => matches_patterns(paths[k].as_str(), patterns),
        };
        if hit {
            assert(path_is_watched(texts(patterns@), *pattern_set, paths@[k as int]@));
            return true;
        }
        k += 1;
    }
    false
}

/// Whether the watcher reports changes now: there are relevant changes and
/// either none was reported before or at least the debounce period has
/// passed since the last report.
pub fn should_report_changes(
    has_changes: bool,
    nanos_since_last_report: Option<u128>,
    debounce_nanos: u128,
) -> (b: bool)
    ensures
        b == (has_changes && match nanos_since_last_report {
            Some(elapsed) => elapsed >= debounce_nanos,
            None => true,
        }),
{
    if !has_changes {
        return false;
    }
    match nanos_since_last_report {
        Some(elapsed) => elapsed >= debounce_nanos,
        None => true,
    }
}

} // verus!
