//! Cleaning and colouring of build-output log lines.

use vstd::prelude::*;
use crate::strings::{
    chars_of, ends_with_chars, ends_with_seq, find_from, insert_sorted_unique, occurs_at, occurs_at_exec,
    starts_with_chars, starts_with_seq, strictly_sorted, string_from_range, texts, trim_end_len, trim_end_seq, is_ws,
};
use crate::utils::text::styled::{
    lemma_pieces_text_concat, lemma_pieces_text_small, pieces_text, push_styled, styled_texts, StyledText, TextStyle,
};
use crate::utils::text::width::{char_at_byte, char_index_at_byte, char_span, lemma_byte_offset_injective};
use crate::watcher::{find_seq, lemma_find_seq_bounds, lemma_find_seq_first};
use crate::utils::text::regex_find::{
    compile_regex, regex_find, regex_first_match, regex_valid, CompiledRegex,
};
use vstd::utf8::encode_utf8;

verus! {

/// The escape character that starts an ANSI control sequence.
pub open spec fn is_escape(c: char) -> bool {
    c == '\u{1b}'
}

/// A final byte of an ANSI control sequence (`'@'..='~'`).
pub open spec fn is_csi_final(c: char) -> bool {
    '@' <= c && c <= '~'
}

/// Position just after the final character of a control sequence whose
/// parameters start at `j`; the end of the text when it has no final character.
pub open spec fn csi_end(s: Seq<char>, j: int) -> int
    decreases s.len() - j,
{
    if j >= s.len() {
        s.len() as int
    } else if is_csi_final(s[j]) {
        j + 1
    } else {
        csi_end(s, j + 1)
    }
}

pub proof fn lemma_csi_end_bounds(s: Seq<char>, j: int)
    requires
        0 <= j <= s.len(),
    ensures
        j <= csi_end(s, j) <= s.len(),
    decreases s.len() - j,
{
    if j < s.len() && !is_csi_final(s[j]) {
        lemma_csi_end_bounds(s, j + 1);
    }
}

/// The characters of `s` from position `i` on, without ANSI control
/// sequences (`ESC [` ... final character) and without carriage returns.
pub open spec fn strip_controls_from(s: Seq<char>, i: int) -> Seq<char>
    decreases s.len() - i,
{
    if i < 0 || i >= s.len() {
        seq![]
    } else if is_escape(s[i]) && i + 1 < s.len() && s[i + 1] == '[' {
        proof {
            lemma_csi_end_bounds(s, i + 2);
        }
        strip_controls_from(s, csi_end(s, i + 2))
    } else if s[i] == '\r' {
        strip_controls_from(s, i + 1)
    } else {
        seq![s[i]] + strip_controls_from(s, i + 1)
    }
}

/// What `clean_log_line` gives for a raw line: the line without control
/// sequences, carriage returns and trailing whitespace, or nothing when that
/// leaves it empty.
pub open spec fn cleaned_line(raw: Seq<char>) -> Option<Seq<char>> {
    let t = trim_end_seq(strip_controls_from(raw, 0));
    if t.len() == 0 {
        None
    } else {
        Some(t)
    }
}

/// The displayed text of a raw line: its cleaned form, or empty.
pub open spec fn display_text(raw: Seq<char>) -> Seq<char> {
    match cleaned_line(raw) {
        Some(t) => t,
        None => seq![],
    }
}

/// `trim_end_seq` removes trailing whitespace and nothing else: it keeps
/// a prefix of `s` that is empty or ends in a non-whitespace character,
/// and all that follows that prefix is whitespace.
pub proof fn lemma_trim_end_keeps_prefix(s: Seq<char>)
    ensures
        trim_end_seq(s).len() <= s.len(),
        s.take(trim_end_seq(s).len() as int) == trim_end_seq(s),
        trim_end_seq(s).len() == 0 || !is_ws(trim_end_seq(s).last()),
        forall|j: int| trim_end_seq(s).len() <= j < s.len() ==> is_ws(#[trigger] s[j]),
    decreases s.len(),
{
    if s.len() > 0 && is_ws(s.last()) {
        lemma_trim_end_keeps_prefix(s.drop_last());
        let t = trim_end_seq(s.drop_last());
        assert(s.take(t.len() as int) =~= s.drop_last().take(t.len() as int));
        assert forall|j: int| t.len() <= j < s.len() implies is_ws(#[trigger] s[j]) by {
            if j < s.len() - 1 {
                assert(s[j] == s.drop_last()[j]);
            }
        }
    } else {
        assert(s.take(s.len() as int) =~= s);
    }
}

/// A text without escape characters and carriage returns has nothing to
/// strip.
pub proof fn lemma_strip_controls_plain(s: Seq<char>, i: int)
    requires
        0 <= i <= s.len(),
        forall|j: int| 0 <= j < s.len() ==> !is_escape(#[trigger] s[j]) && s[j] != '\r',
    ensures
        strip_controls_from(s, i) == s.skip(i),
    decreases s.len() - i,
{
    if i < s.len() {
        lemma_strip_controls_plain(s, i + 1);
        assert(s.skip(i) =~= seq![s[i]] + s.skip(i + 1));
    } else {
        assert(s.skip(i) =~= seq![]);
    }
}

/// Cleaning a raw line only drops its control sequences, carriage returns
/// and trailing whitespace: the cleaned text is the start of the stripped
/// line (leading indentation, such as a stack frame's tab, is kept), it
/// does not end in whitespace, and only whitespace of the stripped line
/// follows it; a line that strips to whitespace alone cleans to nothing.
pub proof fn lemma_cleaned_line_trims_only_the_end(raw: Seq<char>)
    ensures
        match cleaned_line(raw) {
            Some(t) => {
                let s = strip_controls_from(raw, 0);
                &&& 0 < t.len() <= s.len()
                &&& s.take(t.len() as int) == t
                &&& !is_ws(t.last())
                &&& forall|j: int| t.len() <= j < s.len() ==> is_ws(#[trigger] s[j])
            },
            None => forall|j: int|
                0 <= j < strip_controls_from(raw, 0).len() ==> is_ws(
                    #[trigger] strip_controls_from(raw, 0)[j],
                ),
        },
{
    lemma_trim_end_keeps_prefix(strip_controls_from(raw, 0));
}

/// A line without escape characters, carriage returns or trailing
/// whitespace, and not empty, is displayed as it is.
pub proof fn lemma_plain_line_cleans_to_itself(raw: Seq<char>)
    requires
        raw.len() > 0,
        !is_ws(raw.last()),
        forall|j: int| 0 <= j < raw.len() ==> !is_escape(#[trigger] raw[j]) && raw[j] != '\r',
    ensures
        cleaned_line(raw) == Some(raw),
        display_text(raw) == raw,
{
    lemma_strip_controls_plain(raw, 0);
    assert(raw.skip(0) =~= raw);
    assert(trim_end_seq(raw) == raw);
}

proof fn lemma_csi_end_shift(p: Seq<char>, rest: Seq<char>, j: int)
    requires
        0 <= j <= rest.len(),
    ensures
        csi_end(p + rest, p.len() + j) == p.len() + csi_end(rest, j),
    decreases rest.len() - j,
{
    if j < rest.len() {
        assert((p + rest)[p.len() + j] == rest[j]);
        lemma_csi_end_shift(p, rest, j + 1);
    }
}

/// Stripping the text after a prefix does not depend on the prefix.
proof fn lemma_strip_controls_shift(p: Seq<char>, rest: Seq<char>, i: int)
    requires
        0 <= i <= rest.len(),
    ensures
        strip_controls_from(p + rest, p.len() + i) == strip_controls_from(rest, i),
    decreases rest.len() - i,
{
    let h = p + rest;
    let n = p.len() + i;
    if i < rest.len() {
        assert(h[n] == rest[i]);
        if is_escape(rest[i]) && i + 1 < rest.len() && rest[i + 1] == '[' {
            assert(h[n + 1] == rest[i + 1]);
            lemma_csi_end_bounds(rest, i + 2);
            lemma_csi_end_shift(p, rest, i + 2);
            lemma_strip_controls_shift(p, rest, csi_end(rest, i + 2));
        } else {
            if is_escape(rest[i]) && n + 1 < h.len() {
                assert(h[n + 1] == rest[i + 1]);
            }
            lemma_strip_controls_shift(p, rest, i + 1);
        }
    }
}

proof fn lemma_csi_end_of_sequence(e: Seq<char>, rest: Seq<char>, j: int)
    requires
        3 <= e.len(),
        2 <= j < e.len(),
        forall|k: int| 2 <= k < e.len() - 1 ==> !is_csi_final(#[trigger] e[k]),
        is_csi_final(e[e.len() - 1]),
    ensures
        csi_end(e + rest, j) == e.len(),
    decreases e.len() - j,
{
    assert((e + rest)[j] == e[j]);
    if j < e.len() - 1 {
        lemma_csi_end_of_sequence(e, rest, j + 1);
    }
}

/// An ANSI control sequence (`ESC [`, parameters, a final character) at
/// the start of a line is not displayed: the line is stripped, cleaned and
/// displayed as the text after the sequence.
pub proof fn lemma_control_sequence_not_displayed(params: Seq<char>, last: char, rest: Seq<char>)
    requires
        forall|k: int| 0 <= k < params.len() ==> !is_csi_final(#[trigger] params[k]),
        is_csi_final(last),
    ensures
        strip_controls_from(seq!['\u{1b}', '['] + params + seq![last] + rest, 0) == strip_controls_from(
            rest,
            0,
        ),
        cleaned_line(seq!['\u{1b}', '['] + params + seq![last] + rest) == cleaned_line(rest),
        display_text(seq!['\u{1b}', '['] + params + seq![last] + rest) == display_text(rest),
{
    let e = seq!['\u{1b}', '['] + params + seq![last];
    let raw = e + rest;
    assert(seq!['\u{1b}', '['] + params + seq![last] + rest == raw);
    assert forall|k: int| 2 <= k < e.len() - 1 implies !is_csi_final(#[trigger] e[k]) by {
        assert(e[k] == params[k - 2]);
    }
    assert(e[e.len() - 1] == last);
    lemma_csi_end_of_sequence(e, rest, 2);
    assert(raw[0] == '\u{1b}' && raw[1] == '[');
    lemma_strip_controls_shift(e, rest, 0);
}

/// Characters of `s` without control sequences and carriage returns.
fn strip_controls(s: &Vec<char>) -> (r: Vec<char>)
    ensures
        r@ == strip_controls_from(s@, 0),
{
    let mut out: Vec<char> = Vec::new();
    let mut i: usize = 0;
    while i < s.len()
        invariant
            i <= s.len(),
            strip_controls_from(s@, 0) == out@ + strip_controls_from(s@, i as int),
        decreases s.len() - i,
    {
        let ch = s[i];
        if ch == '\u{1b}' && i + 1 < s.len() && s[i + 1] == '[' {
            let mut j = i + 2;
            while j < s.len() && !('@' <= s[j] && s[j] <= '~')
                invariant
                    i + 2 <= j <= s.len(),
                    csi_end(s@, j as int) == csi_end(s@, i + 2),
                decreases s.len() - j,
            {
                j += 1;
            }
            if j < s.len() {
                j += 1;
            }
            i = j;
        } else if ch == '\r' {
            i += 1;
        } else {
            out.push(ch);
            i += 1;
        }
    }
    assert(out@ + seq![] == out@);
    out
}

/// Clean a log line by removing ANSI escape sequences and carriage returns
/// Returns None if the line is empty after cleaning
pub fn clean_log_line(raw: &str) -> (r: Option<String>)
    ensures
        match r {
            Some(t) => cleaned_line(raw@) == Some(t@),
            None => cleaned_line(raw@) is None,
        },
{
    let chars = chars_of(raw);
    let stripped = strip_controls(&chars);
    let end = trim_end_len(&stripped, stripped.len());
    assert(stripped@.take(stripped.len() as int) == stripped@);
    if end == 0 {
        return None;
    }
    let t = string_from_range(&stripped, 0, end);
    assert(stripped@.subrange(0, end as int) == stripped@.take(end as int));
    Some(t)
}

/// Regex pattern for detecting Java package names
/// Matches packages starting with common TLDs (com, org, net, io, fr, etc.)
/// or well-known Java namespaces (java, javax, sun, spring, etc.)
/// followed by at least one more segment: word.word(.word)*
pub const PACKAGE_PATTERN: &'static str = r"\b(?:com|org|net|io|fr|de|uk|nl|eu|gov|edu|mil|int|co|me|info|biz|mobi|name|pro|aero|asia|cat|coop|jobs|museum|tel|travel|xxx|ac|ad|ae|af|ag|ai|al|am|ao|aq|ar|as|at|au|aw|ax|az|ba|bb|bd|be|bf|bg|bh|bi|bj|bm|bn|bo|br|bs|bt|bv|bw|by|bz|ca|cc|cd|cf|cg|ch|ci|ck|cl|cm|cn|cr|cu|cv|cw|cx|cy|cz|dj|dk|dm|do|dz|ec|ee|eg|er|es|et|fi|fj|fk|fm|fo|ga|gb|gd|ge|gf|gg|gh|gi|gl|gm|gn|gp|gq|gr|gs|gt|gu|gw|gy|hk|hm|hn|hr|ht|hu|id|ie|il|im|in|iq|ir|is|it|je|jm|jo|jp|ke|kg|kh|ki|km|kn|kp|kr|kw|ky|kz|la|lb|lc|li|lk|lr|ls|lt|lu|lv|ly|ma|mc|md|mg|mh|mk|ml|mm|mn|mo|mp|mq|mr|ms|mt|mu|mv|mw|mx|my|mz|na|nc|ne|nf|ng|ni|no|np|nr|nu|nz|om|pa|pe|pf|pg|ph|pk|pl|pm|pn|pr|ps|pt|pw|py|qa|re|ro|rs|ru|rw|sa|sb|sc|sd|se|sg|sh|si|sj|sk|sl|sm|sn|so|sr|st|su|sv|sy|sz|tc|td|tf|tg|th|tj|tk|tl|tm|tn|to|tp|tr|tt|tv|tw|tz|ua|ug|uk|us|uy|uz|va|vc|ve|vg|vi|vn|vu|wf|ws|ye|yt|za|zm|zw|java|javax|jakarta|sun|oracle|ibm|spring|springframework|apache|hibernate|jboss|wildfly|tomcat|jetty|eclipse|maven|gradle|junit|mockito|slf4j|logback|log4j|guava|gson|jackson|akka|scala|kotlin|groovy|clojure)(?:\.[a-zA-Z_][a-zA-Z0-9_]*)+\b";

/// Length in bytes that `str::len` reports for a text.
pub open spec fn str_byte_len(m: Seq<char>) -> usize {
    encode_utf8(m).len() as usize
}

/// Longest package name kept, in bytes.
pub const MAX_PACKAGE_LEN: usize = 100;

/// The package name found in a text: the first match of the package
/// pattern, unless it is longer than the limit.
pub open spec fn package_in(text: Seq<char>) -> Option<(usize, usize, Seq<char>)> {
    if !regex_valid(PACKAGE_PATTERN@) {
        None
    } else {
        match regex_first_match(PACKAGE_PATTERN@, text) {
            Some((s, e, m)) => if str_byte_len(m) > MAX_PACKAGE_LEN {
                None
            } else {
                Some((s, e, m))
            },
            None => None,
        }
    }
}

/// The package name contributed by a raw output line: the one found in its
/// cleaned text, when not empty.
pub open spec fn line_package(line: Seq<char>) -> Option<Seq<char>> {
    match cleaned_line(line) {
        Some(t) => match package_in(t) {
            Some((_s, _e, m)) => if m.len() > 0 && str_byte_len(m) <= MAX_PACKAGE_LEN {
                Some(m)
            } else {
                None
            },
            None => None,
        },
        None => None,
    }
}

/// Package names contributed by the first `k` lines.
pub open spec fn packages_in_lines(lines: Seq<String>, k: int) -> Set<Seq<char>> {
    Set::new(|p: Seq<char>| exists|i: int| 0 <= i < k && #[trigger] line_package(lines[i]@) == Some(p))
}

/// First package-name match of a compiled package pattern in `text`.
fn find_package(re: &CompiledRegex, text: &str) -> (r: Option<(usize, usize, String)>)
    requires
        re.pattern_of() == PACKAGE_PATTERN@,
        regex_valid(PACKAGE_PATTERN@),
    ensures
        match r {
            Some((s, e, m)) => package_in(text@) == Some((s, e, m@)),
            None => package_in(text@) is None,
        },
        r matches Some((s, e, m)) ==> exists|a: int, b: int|
            #[trigger] char_span(text@, s, e, a, b) && m@ == text@.subrange(a, b),
{
    match regex_find(re, text) {
        Some((start, end, name)) => {
            if name.as_str().len() > MAX_PACKAGE_LEN {
                None
            } else {
                Some((start, end, name))
            }
        },
        None => None,
    }
}

/// Extract package name from a log line using regex pattern matching
/// This approach is more robust and independent of log format
/// Returns (start_pos, end_pos, package_name) if found
pub fn extract_package_from_log_line(text: &str, _log_format: &str) -> (r: Option<
    (usize, usize, String),
>)
    ensures
        match r {
            Some((s, e, m)) => package_in(text@) == Some((s, e, m@)),
            None => package_in(text@) is None,
        },
        r matches Some((s, e, m)) ==> exists|a: int, b: int|
            #[trigger] char_span(text@, s, e, a, b) && m@ == text@.subrange(a, b),
{
    match compile_regex(PACKAGE_PATTERN) {
        Ok(re) => find_package(&re, text),
        Err(_) => None,
    }
}

/// Extract unique package names from command output lines
/// Returns a sorted list of unique package names found in the logs
pub fn extract_unique_packages(lines: &[String], log_format: Option<&str>) -> (r: Vec<String>)
    ensures
        log_format is None ==> r@.len() == 0,
        log_format is Some && !regex_valid(PACKAGE_PATTERN@) ==> r@.len() == 0,
        log_format is Some && regex_valid(PACKAGE_PATTERN@) ==> {
            &&& strictly_sorted(texts(r@))
            &&& texts(r@).to_set() == packages_in_lines(lines@, lines@.len() as int)
        },
{
    let mut packages: Vec<String> = Vec::new();
    if log_format.is_none() {
        return packages;
    }
    let re = match compile_regex(PACKAGE_PATTERN) {
        Ok(re) => re,
        Err(_) => {
            return packages;
        },
    };
    let mut i: usize = 0;
    assert(texts(packages@).to_set() =~= packages_in_lines(lines@, 0));
    while i < lines.len()
        invariant
            i <= lines@.len(),
            re.pattern_of() == PACKAGE_PATTERN@,
            regex_valid(PACKAGE_PATTERN@),
            strictly_sorted(texts(packages@)),
            texts(packages@).to_set() == packages_in_lines(lines@, i as int),
        decreases lines.len() - i,
    {
        let ghost before = packages_in_lines(lines@, i as int);
        let ghost after = packages_in_lines(lines@, i + 1);
        let found = match clean_log_line(lines[i].as_str()) {
            Some(cleaned) => match find_package(&re, cleaned.as_str()) {
                Some((_start, _end, package_name)) => {
                    if !package_name.as_str().is_empty() && package_name.as_str().len()
                        <= MAX_PACKAGE_LEN {
                        Some(package_name)
                    } else {
                        None
                    }
                },
                None => None,
            },
            None => None,
        };
        proof {
            match line_package(lines@[i as int]@) {
                Some(p) => {
                    assert(found matches Some(f) && f@ == p);
                    assert(after =~= before.insert(p));
                },
                None => {
                    assert(found is None);
                    assert(after =~= before);
                },
            }
        }
        if let Some(package_name) = found {
            insert_sorted_unique(&mut packages, package_name);
        }
        i += 1;
    }
    packages
}

/// The level tag of a log line: the position, text and style of the first
/// `[DEBUG]`; failing that of the first `[INFO]`; then `[WARNING]`, else
/// `[WARN]`; then `[ERROR]`, else `[ERR]`.
pub open spec fn level_tag(text: Seq<char>) -> Option<(int, Seq<char>, TextStyle)> {
    if find_seq(text, "[DEBUG]"@, 0) >= 0 {
        Some((find_seq(text, "[DEBUG]"@, 0), "[DEBUG]"@, TextStyle::LevelDebug))
    } else if find_seq(text, "[INFO]"@, 0) >= 0 {
        Some((find_seq(text, "[INFO]"@, 0), "[INFO]"@, TextStyle::LevelInfo))
    } else if find_seq(text, "[WARNING]"@, 0) >= 0 {
        Some((find_seq(text, "[WARNING]"@, 0), "[WARNING]"@, TextStyle::LevelWarning))
    } else if find_seq(text, "[WARN]"@, 0) >= 0 {
        Some((find_seq(text, "[WARN]"@, 0), "[WARN]"@, TextStyle::LevelWarning))
    } else if find_seq(text, "[ERROR]"@, 0) >= 0 {
        Some((find_seq(text, "[ERROR]"@, 0), "[ERROR]"@, TextStyle::LevelError))
    } else if find_seq(text, "[ERR]"@, 0) >= 0 {
        Some((find_seq(text, "[ERR]"@, 0), "[ERR]"@, TextStyle::LevelError))
    } else {
        None
    }
}

/// The package found in a text, by character positions: where it starts
/// and ends, and its name.
pub open spec fn package_chars(text: Seq<char>) -> Option<(int, int, Seq<char>)> {
    match package_in(text) {
        Some((s, e, m)) => Some((char_at_byte(text, s), char_at_byte(text, e), m)),
        None => None,
    }
}

/// The rest of `text` from position `from`, as a raw piece, if not empty.
pub open spec fn raw_tail(text: Seq<char>, from: int) -> Seq<(TextStyle, Seq<char>)> {
    if from < text.len() {
        seq![(TextStyle::Raw, text.subrange(from, text.len() as int))]
    } else {
        seq![]
    }
}

/// The pieces after the level tag, which ends at `rest`: the package name
/// stands out when it starts after the tag, with raw text around it;
/// otherwise the rest is raw.
pub open spec fn after_level_pieces(
    text: Seq<char>,
    rest: int,
    package: Option<(int, int, Seq<char>)>,
) -> Seq<(TextStyle, Seq<char>)> {
    match package {
        Some((a, b, name)) => if rest <= a && a < text.len() {
            (if a > rest {
                seq![(TextStyle::Raw, text.subrange(rest, a))]
            } else {
                seq![]
            }) + seq![(TextStyle::Package, name)] + raw_tail(text, b)
        } else {
            raw_tail(text, rest)
        },
        None => raw_tail(text, rest),
    }
}

/// A log line split into its level tag and the pieces around it: the text
/// before the tag, the tag, and the pieces after it; a line without level
/// tag as one raw piece.
pub open spec fn level_pieces(text: Seq<char>, package: Option<(int, int, Seq<char>)>) -> Seq<
    (TextStyle, Seq<char>),
> {
    match level_tag(text) {
        Some((k, keyword, style)) => (if k > 0 {
            seq![(TextStyle::Raw, text.subrange(0, k))]
        } else {
            seq![]
        }) + seq![(style, keyword)] + after_level_pieces(text, k + keyword.len(), package),
        None => seq![(TextStyle::Raw, text)],
    }
}

/// A character that can be part of a Java identifier word (ASCII letter,
/// digit or `_`).
pub open spec fn is_word_char(c: char) -> bool {
    ('a' <= c && c <= 'z') || ('A' <= c && c <= 'Z') || ('0' <= c && c <= '9') || c == '_'
}

/// Position just after the word that starts at `i`: the first position at
/// or after `i` that holds no word character.
pub open spec fn word_end(t: Seq<char>, i: int) -> int
    decreases t.len() - i,
{
    if i < 0 || i >= t.len() || !is_word_char(t[i]) {
        i
    } else {
        word_end(t, i + 1)
    }
}

/// An exception or error name: a word that starts with a capital letter
/// and ends with `Exception` or `Error`, with something before that ending.
pub open spec fn is_exception_name(w: Seq<char>) -> bool {
    &&& w.len() > 0
    &&& 'A' <= w[0] && w[0] <= 'Z'
    &&& (w.len() > 9 && ends_with_seq(w, "Exception"@)) || (w.len() > 5 && ends_with_seq(w, "Error"@))
}

/// The pieces of `t` from position `i` on, raw text pending since `r`:
/// each exception name in a piece of its own, the text between them raw.
pub open spec fn exception_pieces_from(t: Seq<char>, i: int, r: int) -> Seq<(TextStyle, Seq<char>)>
    decreases t.len() - i,
{
    if i < 0 || i >= t.len() {
        if 0 <= r < t.len() {
            seq![(TextStyle::Raw, t.subrange(r, t.len() as int))]
        } else {
            seq![]
        }
    } else if is_word_char(t[i]) {
        let j = word_end(t, i);
        proof {
            lemma_word_end_bounds(t, i);
        }
        if is_exception_name(t.subrange(i, j)) {
            (if r < i {
                seq![(TextStyle::Raw, t.subrange(r, i))]
            } else {
                seq![]
            }) + seq![(TextStyle::Exception, t.subrange(i, j))] + exception_pieces_from(t, j, j)
        } else {
            exception_pieces_from(t, j, r)
        }
    } else {
        exception_pieces_from(t, i + 1, r)
    }
}

/// The pieces of a raw text with its exception names standing out.
pub open spec fn exception_pieces(t: Seq<char>) -> Seq<(TextStyle, Seq<char>)> {
    exception_pieces_from(t, 0, 0)
}

/// A piece with the exception names of raw text standing out; other pieces
/// stay as they are.
pub open spec fn piece_exceptions(p: (TextStyle, Seq<char>)) -> Seq<(TextStyle, Seq<char>)> {
    if p.0 == TextStyle::Raw {
        exception_pieces(p.1)
    } else {
        seq![p]
    }
}

/// Pieces with the exception names of their raw text standing out.
pub open spec fn highlight_exceptions(v: Seq<(TextStyle, Seq<char>)>) -> Seq<(TextStyle, Seq<char>)>
    decreases v.len(),
{
    if v.len() == 0 {
        seq![]
    } else {
        highlight_exceptions(v.drop_last()) + piece_exceptions(v.last())
    }
}

/// Position just after the spaces and tabs that start at `i`.
pub open spec fn blank_end(t: Seq<char>, i: int) -> int
    decreases t.len() - i,
{
    if i < 0 || i >= t.len() || !(t[i] == ' ' || t[i] == '\t') {
        i
    } else {
        blank_end(t, i + 1)
    }
}

/// Position of the first `c` at or after `i`, or -1.
pub open spec fn first_index_of(t: Seq<char>, c: char, i: int) -> int
    decreases t.len() - i,
{
    if i < 0 || i >= t.len() {
        -1
    } else if t[i] == c {
        i
    } else {
        first_index_of(t, c, i + 1)
    }
}

/// Position of the last `c` in `lo..hi`, or -1.
pub open spec fn last_index_of(t: Seq<char>, c: char, lo: int, hi: int) -> int
    decreases hi - lo,
{
    if hi <= lo {
        -1
    } else if t[hi - 1] == c {
        hi - 1
    } else {
        last_index_of(t, c, lo, hi - 1)
    }
}

/// The frame of a stack-trace line (`    at pkg.Class.method(Source.java:12)`):
/// where `at ` starts (after at least one space or tab), where the dot
/// before the method is, and where the `(` is. The line ends with `)`, and
/// the class, the method and the source location are not empty.
pub open spec fn stack_frame(t: Seq<char>) -> Option<(int, int, int)> {
    let k = blank_end(t, 0);
    let s = k + 3;
    if k >= 1 && occurs_at(t, "at "@, k) && t.len() > 0 && t.last() == ')' {
        let p = first_index_of(t, '(', s);
        if p >= 0 && p + 1 < t.len() - 1 {
            let d = last_index_of(t, '.', s, p);
            if d > s && d + 1 < p {
                Some((k, d, p))
            } else {
                None
            }
        } else {
            None
        }
    } else {
        None
    }
}

/// The pieces of a stack-trace line whose frame is `(k, d, p)`: the
/// indentation, `at `, the class, the dot, the method, `(`, the source
/// location and `)`.
pub open spec fn stack_pieces(t: Seq<char>, k: int, d: int, p: int) -> Seq<(TextStyle, Seq<char>)> {
    let n = t.len() as int;
    seq![
        (TextStyle::Raw, t.subrange(0, k)),
        (TextStyle::StackAt, t.subrange(k, k + 3)),
        (TextStyle::StackClass, t.subrange(k + 3, d)),
        (TextStyle::Raw, t.subrange(d, d + 1)),
        (TextStyle::StackMethod, t.subrange(d + 1, p)),
        (TextStyle::Raw, t.subrange(p, p + 1)),
        (TextStyle::StackSource, t.subrange(p + 1, n - 1)),
        (TextStyle::Raw, t.subrange(n - 1, n)),
    ]
}

/// A log line split into styled pieces: a command line (`$ ...`) as one
/// piece; a stack-trace line into its frame's parts; otherwise the level tag
/// and package pieces (see `level_pieces`), with every exception name of
/// the raw text in a piece of its own.
pub open spec fn colorized_log_line(text: Seq<char>, package: Option<(int, int, Seq<char>)>) -> Seq<
    (TextStyle, Seq<char>),
> {
    if starts_with_seq(text, "$ "@) {
        seq![(TextStyle::Command, text)]
    } else {
        match stack_frame(text) {
            Some((k, d, p)) => stack_pieces(text, k, d, p),
            None => highlight_exceptions(level_pieces(text, package)),
        }
    }
}

pub proof fn lemma_word_end_bounds(t: Seq<char>, i: int)
    requires
        0 <= i <= t.len(),
    ensures
        i <= word_end(t, i) <= t.len(),
        forall|m: int| i <= m < word_end(t, i) ==> is_word_char(#[trigger] t[m]),
        word_end(t, i) < t.len() ==> !is_word_char(t[word_end(t, i)]),
    decreases t.len() - i,
{
    if i < t.len() && is_word_char(t[i]) {
        lemma_word_end_bounds(t, i + 1);
    }
}

proof fn lemma_blank_end_bounds(t: Seq<char>, i: int)
    requires
        0 <= i <= t.len(),
    ensures
        i <= blank_end(t, i) <= t.len(),
    decreases t.len() - i,
{
    if i < t.len() && (t[i] == ' ' || t[i] == '\t') {
        lemma_blank_end_bounds(t, i + 1);
    }
}

proof fn lemma_first_index_of_bounds(t: Seq<char>, c: char, i: int)
    requires
        0 <= i,
    ensures
        first_index_of(t, c, i) == -1 || (i <= first_index_of(t, c, i) < t.len() && t[first_index_of(t, c, i)]
            == c),
    decreases t.len() - i,
{
    if i < t.len() && t[i] != c {
        lemma_first_index_of_bounds(t, c, i + 1);
    }
}

proof fn lemma_last_index_of_bounds(t: Seq<char>, c: char, lo: int, hi: int)
    ensures
        last_index_of(t, c, lo, hi) == -1 || (lo <= last_index_of(t, c, lo, hi) < hi),
    decreases hi - lo,
{
    if hi > lo && t[hi - 1] != c {
        lemma_last_index_of_bounds(t, c, lo, hi - 1);
    }
}

/// The exception pieces of a text from `i`, with raw text pending since
/// `r`, give back the text from `r`.
proof fn lemma_exception_pieces_keep_text(t: Seq<char>, i: int, r: int)
    requires
        0 <= r <= i <= t.len(),
    ensures
        pieces_text(exception_pieces_from(t, i, r)) == t.subrange(r, t.len() as int),
    decreases t.len() - i,
{
    let n = t.len() as int;
    lemma_pieces_text_small((TextStyle::Raw, t.subrange(r, n)));
    if i >= n {
        if r < n {
        } else {
            assert(t.subrange(r, n) =~= Seq::<char>::empty());
        }
    } else if is_word_char(t[i]) {
        lemma_word_end_bounds(t, i);
        let j = word_end(t, i);
        if is_exception_name(t.subrange(i, j)) {
            lemma_exception_pieces_keep_text(t, j, j);
            let head: Seq<(TextStyle, Seq<char>)> = if r < i {
                seq![(TextStyle::Raw, t.subrange(r, i))]
            } else {
                seq![]
            };
            let mid: Seq<(TextStyle, Seq<char>)> = seq![(TextStyle::Exception, t.subrange(i, j))];
            lemma_pieces_text_small((TextStyle::Raw, t.subrange(r, i)));
            lemma_pieces_text_small((TextStyle::Exception, t.subrange(i, j)));
            lemma_pieces_text_concat(head, mid);
            lemma_pieces_text_concat(head + mid, exception_pieces_from(t, j, j));
            assert(pieces_text(head) =~= t.subrange(r, i));
            assert(t.subrange(r, i) + t.subrange(i, j) + t.subrange(j, n) =~= t.subrange(r, n));
        } else {
            lemma_exception_pieces_keep_text(t, j, r);
        }
    } else {
        lemma_exception_pieces_keep_text(t, i + 1, r);
    }
}

/// Highlighting exceptions keeps the text of the pieces.
proof fn lemma_highlight_exceptions_keeps_text(v: Seq<(TextStyle, Seq<char>)>)
    ensures
        pieces_text(highlight_exceptions(v)) == pieces_text(v),
    decreases v.len(),
{
    if v.len() > 0 {
        lemma_highlight_exceptions_keeps_text(v.drop_last());
        let p = v.last();
        lemma_pieces_text_concat(highlight_exceptions(v.drop_last()), piece_exceptions(p));
        lemma_pieces_text_small(p);
        if p.0 == TextStyle::Raw {
            lemma_exception_pieces_keep_text(p.1, 0, 0);
            assert(p.1.subrange(0, p.1.len() as int) =~= p.1);
        }
    }
}

/// The pieces of a stack-trace line give back the line.
proof fn lemma_stack_pieces_keep_text(t: Seq<char>)
    requires
        stack_frame(t) is Some,
    ensures
        ({
            let (k, d, p) = stack_frame(t)->0;
            pieces_text(stack_pieces(t, k, d, p)) == t
        }),
{
    let (k, d, p) = stack_frame(t)->0;
    let n = t.len() as int;
    lemma_blank_end_bounds(t, 0);
    lemma_first_index_of_bounds(t, '(', k + 3);
    lemma_last_index_of_bounds(t, '.', k + 3, p);
    let v = stack_pieces(t, k, d, p);
    assert(v.drop_last().drop_last().drop_last().drop_last().drop_last().drop_last().drop_last().drop_last()
        =~= Seq::<(TextStyle, Seq<char>)>::empty());
    reveal_with_fuel(pieces_text, 9);
    assert(pieces_text(v) =~= t.subrange(0, k) + t.subrange(k, k + 3) + t.subrange(k + 3, d) + t.subrange(d, d + 1)
        + t.subrange(d + 1, p) + t.subrange(p, p + 1) + t.subrange(p + 1, n - 1) + t.subrange(n - 1, n));
    assert(pieces_text(v) =~= t);
}

/// Splitting a log line into pieces keeps its text: put together, the
/// pieces give the line back, when the package (if any) is a range of the
/// line holding its name.
pub proof fn lemma_colorized_log_keeps_text(text: Seq<char>, package: Option<(int, int, Seq<char>)>)
    requires
        package matches Some((a, b, name)) ==> 0 <= a <= b <= text.len() && name == text.subrange(
            a,
            b,
        ),
    ensures
        pieces_text(colorized_log_line(text, package)) == text,
{
    lemma_pieces_text_small((TextStyle::Command, text));
    if starts_with_seq(text, "$ "@) {
    } else if stack_frame(text) is Some {
        lemma_stack_pieces_keep_text(text);
    } else {
        lemma_level_pieces_keep_text(text, package);
        lemma_highlight_exceptions_keeps_text(level_pieces(text, package));
    }
}

/// The level pieces of a line give back the line.
proof fn lemma_level_pieces_keep_text(text: Seq<char>, package: Option<(int, int, Seq<char>)>)
    requires
        package matches Some((a, b, name)) ==> 0 <= a <= b <= text.len() && name == text.subrange(
            a,
            b,
        ),
    ensures
        pieces_text(level_pieces(text, package)) == text,
{
    lemma_pieces_text_small((TextStyle::Raw, text));
    match level_tag(text) {
        Some((k, keyword, style)) => {
            lemma_level_tag_occurs(text);
            let rest = k + keyword.len();
            let before: Seq<(TextStyle, Seq<char>)> = if k > 0 {
                seq![(TextStyle::Raw, text.subrange(0, k))]
            } else {
                seq![]
            };
            let tag: Seq<(TextStyle, Seq<char>)> = seq![(style, keyword)];
            let after = after_level_pieces(text, rest, package);
            lemma_pieces_text_small((TextStyle::Raw, text.subrange(0, k)));
            lemma_pieces_text_small((style, keyword));
            lemma_pieces_text_concat(before, tag);
            lemma_pieces_text_concat(before + tag, after);
            assert(pieces_text(before) =~= text.subrange(0, k));
            assert(pieces_text(tag) =~= keyword);
            assert(text.subrange(k, rest) == keyword);
            lemma_after_level_keeps_text(text, rest, package);
            assert(text.subrange(0, k) + keyword + text.subrange(rest, text.len() as int) =~= text);
        },
        None => {
            assert(pieces_text(seq![(TextStyle::Raw, text)]) =~= text);
        },
    }
}

/// The level tag found in a line occurs there.
proof fn lemma_level_tag_occurs(text: Seq<char>)
    ensures
        level_tag(text) matches Some((k, keyword, _)) ==> occurs_at(text, keyword, k),
{
    lemma_find_seq_bounds(text, "[DEBUG]"@, 0);
    lemma_find_seq_bounds(text, "[INFO]"@, 0);
    lemma_find_seq_bounds(text, "[WARNING]"@, 0);
    lemma_find_seq_bounds(text, "[WARN]"@, 0);
    lemma_find_seq_bounds(text, "[ERROR]"@, 0);
    lemma_find_seq_bounds(text, "[ERR]"@, 0);
}

/// The pieces after the level tag give back the rest of the line.
proof fn lemma_after_level_keeps_text(text: Seq<char>, rest: int, package: Option<(int, int, Seq<char>)>)
    requires
        0 <= rest <= text.len(),
        package matches Some((a, b, name)) ==> 0 <= a <= b <= text.len() && name == text.subrange(
            a,
            b,
        ),
    ensures
        pieces_text(after_level_pieces(text, rest, package)) == text.subrange(
            rest,
            text.len() as int,
        ),
{
    let len = text.len() as int;
    lemma_pieces_text_small((TextStyle::Raw, text.subrange(rest, len)));
    assert(pieces_text(raw_tail(text, rest)) =~= text.subrange(rest, len));
    match package {
        Some((a, b, name)) => {
            if rest <= a && a < len {
                let head: Seq<(TextStyle, Seq<char>)> = if a > rest {
                    seq![(TextStyle::Raw, text.subrange(rest, a))]
                } else {
                    seq![]
                };
                let mid: Seq<(TextStyle, Seq<char>)> = seq![(TextStyle::Package, name)];
                lemma_pieces_text_small((TextStyle::Raw, text.subrange(rest, a)));
                lemma_pieces_text_small((TextStyle::Package, name));
                lemma_pieces_text_small((TextStyle::Raw, text.subrange(b, len)));
                lemma_pieces_text_concat(head, mid);
                lemma_pieces_text_concat(head + mid, raw_tail(text, b));
                assert(pieces_text(head) =~= text.subrange(rest, a));
                assert(pieces_text(mid) =~= name);
                assert(pieces_text(raw_tail(text, b)) =~= text.subrange(b, len));
                assert(text.subrange(rest, a) + text.subrange(a, b) + text.subrange(b, len)
                    =~= text.subrange(rest, len));
            }
        },
        None => {},
    }
}

/// Position of the first occurrence of `keyword` in `text`.
fn first_occurrence(text: &Vec<char>, keyword: &str) -> (r: Option<usize>)
    ensures
        match r {
            Some(k) => find_seq(text@, keyword@, 0) == k && occurs_at(text@, keyword@, k as int),
            None => find_seq(text@, keyword@, 0) == -1,
        },
{
    let kw = chars_of(keyword);
    let r = find_from(text, &kw, 0);
    proof {
        lemma_find_seq_first(text@, kw@, 0, match r {
            Some(k) => Some(k as int),
            None => None,
        });
    }
    r
}

/// The level tag of a log line, as `level_tag` describes it.
fn find_level(text: &Vec<char>) -> (r: Option<(usize, String, TextStyle)>)
    ensures
        match r {
            Some((k, keyword, style)) => level_tag(text@) == Some((k as int, keyword@, style))
                && occurs_at(text@, keyword@, k as int),
            None => level_tag(text@) is None,
        },
{
    if let Some(k) = first_occurrence(text, "[DEBUG]") {
        return Some((k, String::from_str("[DEBUG]"), TextStyle::LevelDebug));
    }
    if let Some(k) = first_occurrence(text, "[INFO]") {
        return Some((k, String::from_str("[INFO]"), TextStyle::LevelInfo));
    }
    if let Some(k) = first_occurrence(text, "[WARNING]") {
        return Some((k, String::from_str("[WARNING]"), TextStyle::LevelWarning));
    }
    if let Some(k) = first_occurrence(text, "[WARN]") {
        return Some((k, String::from_str("[WARN]"), TextStyle::LevelWarning));
    }
    if let Some(k) = first_occurrence(text, "[ERROR]") {
        return Some((k, String::from_str("[ERROR]"), TextStyle::LevelError));
    }
    if let Some(k) = first_occurrence(text, "[ERR]") {
        return Some((k, String::from_str("[ERR]"), TextStyle::LevelError));
    }
    None
}

/// Appends the rest of `text` from `from` as a raw piece, if not empty.
fn push_raw_tail(spans: &mut Vec<StyledText>, text: &Vec<char>, from: usize)
    requires
        from <= text@.len(),
    ensures
        styled_texts(final(spans)@) == styled_texts(old(spans)@) + raw_tail(text@, from as int),
{
    if from < text.len() {
        push_styled(spans, TextStyle::Raw, string_from_range(text, from, text.len()));
    }
}

/// Appends the text before the level tag at `level_pos`, the tag itself and
/// the pieces after it, with the package name standing out.
fn colorize_with_level_and_package(
    text: &Vec<char>,
    level_pos: usize,
    level_keyword: String,
    level_style: TextStyle,
    package_info: Option<(usize, usize, String)>,
    spans: &mut Vec<StyledText>,
)
    requires
        occurs_at(text@, level_keyword@, level_pos as int),
        package_info matches Some((a, b, _)) ==> a <= b <= text@.len(),
    ensures
        styled_texts(final(spans)@) == styled_texts(old(spans)@) + (if level_pos > 0 {
            seq![(TextStyle::Raw, text@.subrange(0, level_pos as int))]
        } else {
            seq![]
        }) + seq![(level_style, level_keyword@)] + after_level_pieces(
            text@,
            level_pos + level_keyword@.len(),
            match package_info {
                Some((a, b, name)) => Some((a as int, b as int, name@)),
                None => None,
            },
        ),
{
    let ghost before = styled_texts(spans@);
    let keyword_len = chars_of(level_keyword.as_str()).len();
    assert(level_pos + keyword_len <= text.len());
    if level_pos > 0 {
        push_styled(spans, TextStyle::Raw, string_from_range(text, 0, level_pos));
    }
    push_styled(spans, level_style, level_keyword);
    let ghost with_level = styled_texts(spans@);
    let remaining_start = level_pos + keyword_len;
    match package_info {
        Some((pkg_start, pkg_end, pkg_name)) => {
            if pkg_start >= remaining_start && pkg_start < text.len() {
                if pkg_start > remaining_start {
                    push_styled(
                        spans,
                        TextStyle::Raw,
                        string_from_range(text, remaining_start, pkg_start),
                    );
                }
                push_styled(spans, TextStyle::Package, pkg_name);
                push_raw_tail(spans, text, pkg_end);
            } else {
                push_raw_tail(spans, text, remaining_start);
            }
        },
        None => {
            push_raw_tail(spans, text, remaining_start);
        },
    }
}

fn is_word_char_exec(c: char) -> (b: bool)
    ensures
        b == is_word_char(c),
{
    ('a' <= c && c <= 'z') || ('A' <= c && c <= 'Z') || ('0' <= c && c <= '9') || c == '_'
}

/// Whether the word `t[i..j]` is an exception name.
fn exception_name_at(t: &Vec<char>, i: usize, j: usize) -> (b: bool)
    requires
        i < j <= t@.len(),
    ensures
        b == is_exception_name(t@.subrange(i as int, j as int)),
{
    let w = chars_of(string_from_range(t, i, j).as_str());
    if !('A' <= w[0] && w[0] <= 'Z') {
        return false;
    }
    let exc = chars_of("Exception");
    let err = chars_of("Error");
    (w.len() > 9 && ends_with_chars(&w, &exc)) || (w.len() > 5 && ends_with_chars(&w, &err))
}

/// Appends the pieces of the raw text `t` with its exception names
/// standing out.
fn push_exception_pieces(spans: &mut Vec<StyledText>, t: &Vec<char>)
    ensures
        styled_texts(final(spans)@) == styled_texts(old(spans)@) + exception_pieces(t@),
{
    let ghost start = styled_texts(spans@);
    let mut i: usize = 0;
    let mut r: usize = 0;
    assert(start + exception_pieces_from(t@, 0, 0) == start + exception_pieces(t@));
    while i < t.len()
        invariant
            r <= i <= t@.len(),
            styled_texts(spans@) + exception_pieces_from(t@, i as int, r as int) == start + exception_pieces(t@),
        decreases t.len() - i,
    {
        let ghost before = styled_texts(spans@);
        if is_word_char_exec(t[i]) {
            let mut j = i;
            while j < t.len() && is_word_char_exec(t[j])
                invariant
                    i <= j <= t@.len(),
                    word_end(t@, j as int) == word_end(t@, i as int),
                decreases t.len() - j,
            {
                j += 1;
            }
            proof {
                lemma_word_end_bounds(t@, i as int);
            }
            assert(j > i);
            if exception_name_at(t, i, j) {
                let ghost head: Seq<(TextStyle, Seq<char>)> = if r < i {
                    seq![(TextStyle::Raw, t@.subrange(r as int, i as int))]
                } else {
                    seq![]
                };
                if r < i {
                    push_styled(spans, TextStyle::Raw, string_from_range(t, r, i));
                }
                push_styled(spans, TextStyle::Exception, string_from_range(t, i, j));
                assert(styled_texts(spans@) =~= before + head + seq![(TextStyle::Exception, t@.subrange(i as int, j as int))]);
                assert(exception_pieces_from(t@, i as int, r as int) == head + seq![
                    (TextStyle::Exception, t@.subrange(i as int, j as int)),
                ] + exception_pieces_from(t@, j as int, j as int));
                assert(before + (head + seq![(TextStyle::Exception, t@.subrange(i as int, j as int))]
                    + exception_pieces_from(t@, j as int, j as int)) =~= before + head + seq![
                    (TextStyle::Exception, t@.subrange(i as int, j as int)),
                ] + exception_pieces_from(t@, j as int, j as int));
                r = j;
            }
            i = j;
        } else {
            i += 1;
        }
    }
    let ghost before = styled_texts(spans@);
    if r < t.len() {
        push_styled(spans, TextStyle::Raw, string_from_range(t, r, t.len()));
    } else {
        assert(before + Seq::<(TextStyle, Seq<char>)>::empty() =~= before);
    }
}

/// The pieces `v` with the exception names of their raw text standing out.
fn with_exceptions(v: Vec<StyledText>) -> (r: Vec<StyledText>)
    ensures
        styled_texts(r@) == highlight_exceptions(styled_texts(v@)),
{
    let ghost all = styled_texts(v@);
    let mut out: Vec<StyledText> = Vec::new();
    let mut i: usize = 0;
    assert(all.take(0) =~= Seq::<(TextStyle, Seq<char>)>::empty());
    assert(styled_texts(out@) =~= Seq::<(TextStyle, Seq<char>)>::empty());
    while i < v.len()
        invariant
            i <= v@.len(),
            all == styled_texts(v@),
            styled_texts(out@) == highlight_exceptions(all.take(i as int)),
        decreases v.len() - i,
    {
        let style = v[i].0;
        assert(all.take(i + 1).drop_last() =~= all.take(i as int));
        assert(all.take(i + 1).last() == (v@[i as int].0, v@[i as int].1@));
        match style {
            TextStyle::Raw => {
                let cs = chars_of(v[i].1.as_str());
                push_exception_pieces(&mut out, &cs);
            },
            _ => {
                let ghost before = styled_texts(out@);
                push_styled(&mut out, style, v[i].1.clone());
            },
        }
        i += 1;
    }
    assert(all.take(i as int) =~= all);
    out
}

/// The stack-trace frame of a line, as `stack_frame` describes it.
fn find_stack_frame(t: &Vec<char>) -> (r: Option<(usize, usize, usize)>)
    ensures
        match r {
            Some((k, d, p)) => stack_frame(t@) == Some((k as int, d as int, p as int)),
            None => stack_frame(t@) is None,
        },
{
    let mut k: usize = 0;
    while k < t.len() && (t[k] == ' ' || t[k] == '\t')
        invariant
            k <= t@.len(),
            blank_end(t@, k as int) == blank_end(t@, 0),
        decreases t.len() - k,
    {
        k += 1;
    }
    let at = chars_of("at ");
    if k < 1 || !occurs_at_exec(t, &at, k) || t.len() == 0 || t[t.len() - 1] != ')' {
        return None;
    }
    assert(occurs_at(t@, at@, k as int));
    proof {
        reveal_strlit("at ");
    }
    assert(at@.len() == 3);
    let s = k + 3;
    let mut p: usize = s;
    while p < t.len() && t[p] != '('
        invariant
            s <= p <= t@.len(),
            first_index_of(t@, '(', p as int) == first_index_of(t@, '(', s as int),
        decreases t.len() - p,
    {
        p += 1;
    }
    if p >= t.len() || p + 1 >= t.len() - 1 {
        return None;
    }
    let mut d: usize = p;
    while d > s && t[d - 1] != '.'
        invariant
            s <= d <= p,
            p < t@.len(),
            last_index_of(t@, '.', s as int, d as int) == last_index_of(t@, '.', s as int, p as int),
        decreases d,
    {
        d -= 1;
    }
    if d <= s {
        return None;
    }
    let dot = d - 1;
    if dot <= s || dot + 1 >= p {
        return None;
    }
    Some((k, dot, p))
}

/// Splits a log line into styled pieces: a command line (`$ ...`) as a
/// whole; a stack-trace line into `at `, class, method and source
/// location; otherwise the level tag stands out and, when a log format is
/// given, so does the Java package name found after it, and every
/// exception name of the rest of the text stands in a piece of its own.
pub fn colorize_log_line_with_format(text: &str, log_format: Option<&str>) -> (r: Vec<StyledText>)
    ensures
        styled_texts(r@) == colorized_log_line(
            text@,
            if log_format is Some {
                package_chars(text@)
            } else {
                None
            },
        ),
        pieces_text(styled_texts(r@)) == text@,
{
    let mut spans: Vec<StyledText> = Vec::new();
    let cs = chars_of(text);
    let prompt = chars_of("$ ");
    if starts_with_chars(&cs, &prompt) {
        assert(styled_texts(spans@) =~= Seq::<(TextStyle, Seq<char>)>::empty());
        push_styled(&mut spans, TextStyle::Command, String::from_str(text));
        proof {
            assert(styled_texts(spans@) =~= seq![(TextStyle::Command, text@)]);
            lemma_pieces_text_small((TextStyle::Command, text@));
        }
        return spans;
    }
    if let Some((k, d, p)) = find_stack_frame(&cs) {
        proof {
            lemma_stack_pieces_keep_text(text@);
        }
        let n = cs.len();
        push_styled(&mut spans, TextStyle::Raw, string_from_range(&cs, 0, k));
        push_styled(&mut spans, TextStyle::StackAt, string_from_range(&cs, k, k + 3));
        push_styled(&mut spans, TextStyle::StackClass, string_from_range(&cs, k + 3, d));
        push_styled(&mut spans, TextStyle::Raw, string_from_range(&cs, d, d + 1));
        push_styled(&mut spans, TextStyle::StackMethod, string_from_range(&cs, d + 1, p));
        push_styled(&mut spans, TextStyle::Raw, string_from_range(&cs, p, p + 1));
        push_styled(&mut spans, TextStyle::StackSource, string_from_range(&cs, p + 1, n - 1));
        push_styled(&mut spans, TextStyle::Raw, string_from_range(&cs, n - 1, n));
        assert(styled_texts(spans@) =~= stack_pieces(text@, k as int, d as int, p as int));
        return spans;
    }
    let package_info: Option<(usize, usize, String)> = match log_format {
        Some(fmt) => match extract_package_from_log_line(text, fmt) {
            Some((s, e, name)) => {
                let a = char_index_at_byte(&cs, s);
                let b = char_index_at_byte(&cs, e);
                proof {
                    let (a0, b0) = choose|a0: int, b0: int|
                        #[trigger] char_span(text@, s, e, a0, b0) && name@ == text@.subrange(a0, b0);
                    lemma_byte_offset_injective(text@, a0, a as int);
                    lemma_byte_offset_injective(text@, b0, b as int);
                    lemma_colorized_log_keeps_text(text@, Some((a as int, b as int, name@)));
                }
                Some((a, b, name))
            },
            None => None,
        },
        None => None,
    };
    proof {
        lemma_colorized_log_keeps_text(text@, None);
    }
    match find_level(&cs) {
        Some((k, keyword, style)) => {
            colorize_with_level_and_package(&cs, k, keyword, style, package_info, &mut spans);
        },
        None => {
            push_styled(&mut spans, TextStyle::Raw, String::from_str(text));
        },
    }
    assert(styled_texts(Seq::<StyledText>::empty()) =~= Seq::<(TextStyle, Seq<char>)>::empty());
    with_exceptions(spans)
}

/// Splits a log line into styled pieces without package highlighting.
pub fn colorize_log_line(text: &str) -> (r: Vec<StyledText>)
    ensures
        styled_texts(r@) == colorized_log_line(text@, None),
{
    colorize_log_line_with_format(text, None)
}

} // verus!
