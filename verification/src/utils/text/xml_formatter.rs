//! Syntax colouring of XML lines (shown for a profile's XML): tags,
//! attributes, values, comments and declarations become styled pieces.

use vstd::prelude::*;
use crate::strings::{chars_of, is_whitespace, is_ws, push_char, string_from_range, trim_seq, trim_text};
use crate::utils::text::styled::{push_styled, styled_texts, StyledText, TextStyle};

verus! {

/// Quote state after seeing the quote character `ch`: a matching quote
/// closes the quoted part, a quote outside one opens it, any other quote
/// inside one changes nothing.
pub open spec fn toggled_quotes(ch: char, in_quotes: bool, quote_char: char) -> (bool, char) {
    if in_quotes && quote_char == ch {
        (false, ' ')
    } else if !in_quotes {
        (true, ch)
    } else {
        (in_quotes, quote_char)
    }
}

/// Whether a character is a quote.
pub open spec fn is_quote(ch: char) -> bool {
    ch == '"' || ch == '\''
}

/// Where a tag whose content starts at `j` ends (exclusive): just after the
/// first `>` outside quotes, or at the end of the line.
pub open spec fn tag_end(s: Seq<char>, j: int, in_quotes: bool, quote_char: char) -> int
    decreases s.len() - j,
{
    if j >= s.len() {
        s.len() as int
    } else {
        let ch = s[j];
        let q = if is_quote(ch) {
            toggled_quotes(ch, in_quotes, quote_char)
        } else {
            (in_quotes, quote_char)
        };
        if ch == '>' && !q.0 {
            j + 1
        } else {
            tag_end(s, j + 1, q.0, q.1)
        }
    }
}

/// A tag ends after its start and within the line.
pub proof fn lemma_tag_end_bounds(s: Seq<char>, j: int, in_quotes: bool, quote_char: char)
    requires
        0 <= j,
    ensures
        j <= s.len() ==> j < tag_end(s, j, in_quotes, quote_char) || (j == s.len() && tag_end(
            s,
            j,
            in_quotes,
            quote_char,
        ) == s.len()),
        j <= s.len() ==> tag_end(s, j, in_quotes, quote_char) <= s.len(),
    decreases s.len() - j,
{
    if j < s.len() {
        let ch = s[j];
        let q = if is_quote(ch) {
            toggled_quotes(ch, in_quotes, quote_char)
        } else {
            (in_quotes, quote_char)
        };
        if !(ch == '>' && !q.0) {
            lemma_tag_end_bounds(s, j + 1, q.0, q.1);
        }
    }
}

/// `s` without its leading `c` characters.
pub open spec fn strip_start(s: Seq<char>, c: char) -> Seq<char>
    decreases s.len(),
{
    if s.len() > 0 && s[0] == c {
        strip_start(s.drop_first(), c)
    } else {
        s
    }
}

/// `s` without its trailing `c` characters.
pub open spec fn strip_end(s: Seq<char>, c: char) -> Seq<char>
    decreases s.len(),
{
    if s.len() > 0 && s.last() == c {
        strip_end(s.drop_last(), c)
    } else {
        s
    }
}

/// The content of a tag: without its leading `<` and trailing `>`.
pub open spec fn tag_content(tag: Seq<char>) -> Seq<char> {
    strip_end(strip_start(tag, '<'), '>')
}

/// The words of `s[i..]` separated by whitespace, `cur` being the part of
/// a word already read.
pub open spec fn words_from(s: Seq<char>, i: int, cur: Seq<char>) -> Seq<Seq<char>>
    decreases s.len() - i,
{
    if i >= s.len() {
        if cur.len() > 0 {
            seq![cur]
        } else {
            seq![]
        }
    } else if is_ws(s[i]) {
        (if cur.len() > 0 {
            seq![cur]
        } else {
            seq![]
        }) + words_from(s, i + 1, seq![])
    } else {
        words_from(s, i + 1, cur.push(s[i]))
    }
}

/// The words of `s` separated by whitespace (`str::split_whitespace`).
pub open spec fn words(s: Seq<char>) -> Seq<Seq<char>> {
    words_from(s, 0, seq![])
}

/// Words joined with single spaces.
pub open spec fn join_words(ws: Seq<Seq<char>>) -> Seq<char>
    decreases ws.len(),
{
    if ws.len() == 0 {
        seq![]
    } else if ws.len() == 1 {
        ws[0]
    } else {
        join_words(ws.drop_last()) + seq![' '] + ws.last()
    }
}

/// Optionally a raw piece of `text`, when it is not empty.
pub open spec fn raw_piece(text: Seq<char>) -> Seq<(TextStyle, Seq<char>)> {
    if text.len() > 0 {
        seq![(TextStyle::Raw, text)]
    } else {
        seq![]
    }
}

/// The pieces of the attribute text `a[i..]`, in the state reached so far:
/// `cur` is the text read and not yet emitted, `in_quotes` whether a value
/// is being read inside quotes, `in_value` whether an `=` was seen whose
/// value has not ended. A name before `=` is emitted after a space, a
/// quoted value with its quotes, other words as they are.
pub open spec fn attribute_pieces_from(
    a: Seq<char>,
    i: int,
    cur: Seq<char>,
    in_quotes: bool,
    in_value: bool,
) -> Seq<(TextStyle, Seq<char>)>
    decreases a.len() - i,
{
    if i >= a.len() {
        raw_piece(cur)
    } else {
        let ch = a[i];
        if ch == '=' && !in_quotes {
            let name = trim_seq(cur);
            (if name.len() > 0 {
                seq![(TextStyle::Raw, seq![' ']), (TextStyle::XmlAttributeName, name)]
            } else {
                seq![]
            }) + seq![(TextStyle::XmlPunctuation, seq!['='])] + attribute_pieces_from(
                a,
                i + 1,
                if name.len() > 0 {
                    seq![]
                } else {
                    cur
                },
                in_quotes,
                true,
            )
        } else if is_quote(ch) {
            if !in_quotes {
                attribute_pieces_from(a, i + 1, cur.push(ch), true, in_value)
            } else {
                seq![(TextStyle::XmlAttributeValue, cur.push(ch))] + attribute_pieces_from(
                    a,
                    i + 1,
                    seq![],
                    false,
                    false,
                )
            }
        } else if is_ws(ch) && !in_quotes && !in_value {
            raw_piece(cur) + attribute_pieces_from(a, i + 1, seq![], in_quotes, in_value)
        } else {
            attribute_pieces_from(a, i + 1, cur.push(ch), in_quotes, in_value)
        }
    }
}

/// The pieces of a tag: a comment or a declaration as a whole; otherwise
/// the brackets, the tag name (styled as closing or opening) and the pieces
/// of the attributes; a tag without name as raw text.
pub open spec fn tag_pieces(tag: Seq<char>, is_closing: bool, is_comment: bool) -> Seq<
    (TextStyle, Seq<char>),
> {
    if is_comment {
        seq![(TextStyle::XmlComment, tag)]
    } else {
        let content = tag_content(tag);
        if content.len() > 0 && content[0] == '?' {
            seq![(TextStyle::XmlDeclaration, tag)]
        } else {
            let ws = words(content);
            if ws.len() == 0 {
                seq![(TextStyle::Raw, tag)]
            } else {
                seq![
                    (TextStyle::XmlPunctuation, seq!['<']),
                    (
                        if is_closing {
                            TextStyle::XmlClosingTagName
                        } else {
                            TextStyle::XmlTagName
                        },
                        ws[0],
                    ),
                ] + (if ws.len() > 1 {
                    attribute_pieces_from(join_words(ws.drop_first()), 0, seq![], false, false)
                } else {
                    seq![]
                }) + seq![(TextStyle::XmlPunctuation, seq!['>'])]
            }
        }
    }
}

/// The pieces of `s[i..]`, the text not yet emitted starting at `t`: text
/// between tags is raw, each tag gives its own pieces.
pub open spec fn xml_pieces_from(s: Seq<char>, i: int, t: int) -> Seq<(TextStyle, Seq<char>)>
    decreases s.len() - i,
{
    if i < 0 || i >= s.len() {
        if 0 <= t < s.len() {
            seq![(TextStyle::Raw, s.subrange(t, s.len() as int))]
        } else {
            seq![]
        }
    } else if s[i] == '<' {
        let e = tag_end(s, i + 1, false, ' ');
        proof {
            lemma_tag_end_bounds(s, i + 1, false, ' ');
        }
        (if t < i {
            seq![(TextStyle::Raw, s.subrange(t, i))]
        } else {
            seq![]
        }) + tag_pieces(
            s.subrange(i, e),
            i + 1 < s.len() && s[i + 1] == '/',
            i + 1 < s.len() && s[i + 1] == '!',
        ) + xml_pieces_from(s, e, e)
    } else {
        xml_pieces_from(s, i + 1, t)
    }
}

/// The styled pieces of an XML line; a line that gives none is one raw
/// piece.
pub open spec fn colorized_xml_line(s: Seq<char>) -> Seq<(TextStyle, Seq<char>)> {
    let pieces = xml_pieces_from(s, 0, 0);
    if pieces.len() == 0 {
        seq![(TextStyle::Raw, s)]
    } else {
        pieces
    }
}

/// Whether a quote character changes the quote state.
pub fn should_toggle_quotes(ch: char, _in_quotes: bool, _quote_char: char) -> (b: bool)
    ensures
        b == is_quote(ch),
{
    ch == '"' || ch == '\''
}

/// The quote state after the quote character `ch`.
pub fn toggle_quote_state(ch: char, in_quotes: bool, quote_char: char) -> (r: (bool, char))
    ensures
        r == toggled_quotes(ch, in_quotes, quote_char),
{
    if in_quotes && quote_char == ch {
        (false, ' ')
    } else if !in_quotes {
        (true, ch)
    } else {
        (in_quotes, quote_char)
    }
}

/// Where the tag whose content starts at `j` ends: just after the first `>`
/// outside quotes, or at the end of the line.
pub fn consume_tag_content(s: &Vec<char>, j: usize) -> (e: usize)
    requires
        j <= s@.len(),
    ensures
        e == tag_end(s@, j as int, false, ' '),
        e <= s@.len(),
{
    let mut k = j;
    let mut in_quotes = false;
    let mut quote_char = ' ';
    while k < s.len()
        invariant
            j <= k <= s@.len(),
            tag_end(s@, k as int, in_quotes, quote_char) == tag_end(s@, j as int, false, ' '),
        decreases s.len() - k,
    {
        let next_ch = s[k];
        if should_toggle_quotes(next_ch, in_quotes, quote_char) {
            let (q, c) = toggle_quote_state(next_ch, in_quotes, quote_char);
            in_quotes = q;
            quote_char = c;
        }
        k += 1;
        if next_ch == '>' && !in_quotes {
            return k;
        }
    }
    k
}

/// `tag` without its leading `<` and trailing `>` characters.
pub fn strip_tag_brackets(tag: &str) -> (r: String)
    ensures
        r@ == tag_content(tag@),
{
    let cs = chars_of(tag);
    let mut start: usize = 0;
    assert(cs@.subrange(0, cs@.len() as int) =~= cs@);
    while start < cs.len() && cs[start] == '<'
        invariant
            start <= cs@.len(),
            cs@ == tag@,
            strip_start(cs@.subrange(start as int, cs@.len() as int), '<') == strip_start(tag@, '<'),
        decreases cs.len() - start,
    {
        assert(cs@.subrange(start as int, cs@.len() as int).drop_first() =~= cs@.subrange(
            start + 1,
            cs@.len() as int,
        ));
        start += 1;
    }
    let mut end: usize = cs.len();
    assert(strip_start(tag@, '<') == cs@.subrange(start as int, end as int));
    while end > start && cs[end - 1] == '>'
        invariant
            start <= end <= cs@.len(),
            cs@ == tag@,
            strip_end(cs@.subrange(start as int, end as int), '>') == tag_content(tag@),
        decreases end,
    {
        assert(cs@.subrange(start as int, end as int).drop_last() =~= cs@.subrange(
            start as int,
            end - 1,
        ));
        end -= 1;
    }
    string_from_range(&cs, start, end)
}

/// Whether tag content is an XML declaration (starts with `?`).
pub fn is_xml_declaration(content: &str) -> (b: bool)
    ensures
        b == (content@.len() > 0 && content@[0] == '?'),
{
    let cs = chars_of(content);
    cs.len() > 0 && cs[0] == '?'
}

/// The words of `s` separated by whitespace.
pub(crate) fn split_words(s: &str) -> (r: Vec<String>)
    ensures
        r@.map_values(|w: String| w@) == words(s@),
{
    let cs = chars_of(s);
    let mut out: Vec<String> = Vec::new();
    let mut cur = String::new();
    let mut i: usize = 0;
    while i < cs.len()
        invariant
            i <= cs@.len(),
            cs@ == s@,
            out@.map_values(|w: String| w@) + words_from(s@, i as int, cur@) == words(s@),
        decreases cs.len() - i,
    {
        let ghost before = out@.map_values(|w: String| w@);
        let ch = cs[i];
        if is_whitespace(ch) {
            if !cur.as_str().is_empty() {
                let ghost w = cur@;
                out.push(cur);
                assert(out@.map_values(|w: String| w@) =~= before.push(w));
            }
            cur = String::new();
        } else {
            push_char(&mut cur, ch);
        }
        i += 1;
    }
    if !cur.as_str().is_empty() {
        let ghost before = out@.map_values(|w: String| w@);
        let ghost w = cur@;
        out.push(cur);
        assert(out@.map_values(|w: String| w@) =~= before.push(w));
    } else {
        assert(out@.map_values(|w: String| w@) + seq![] =~= out@.map_values(|w: String| w@));
    }
    out
}

/// The words of `ws` from position `from` on, joined with single spaces.
fn join_from(ws: &Vec<String>, from: usize) -> (r: String)
    requires
        from <= ws@.len(),
    ensures
        r@ == join_words(ws@.map_values(|w: String| w@).skip(from as int)),
{
    let ghost all = ws@.map_values(|w: String| w@).skip(from as int);
    let mut r = String::new();
    let mut k: usize = from;
    assert(all.take(0) =~= seq![]);
    while k < ws.len()
        invariant
            from <= k <= ws@.len(),
            all == ws@.map_values(|w: String| w@).skip(from as int),
            r@ == join_words(all.take(k - from)),
        decreases ws.len() - k,
    {
        if k > from {
            push_char(&mut r, ' ');
        }
        r.append(ws[k].as_str());
        proof {
            let taken = all.take(k + 1 - from);
            assert(taken.drop_last() =~= all.take(k - from));
            assert(taken.last() == ws@[k as int]@);
            if k == from {
                assert(taken =~= seq![ws@[k as int]@]);
            }
        }
        k += 1;
    }
    assert(all.take(ws.len() - from) =~= all);
    r
}

/// Appends the pieces of the attribute text `attrs`.
pub fn colorize_xml_attributes(attrs: &str, spans: &mut Vec<StyledText>)
    ensures
        styled_texts(final(spans)@) == styled_texts(old(spans)@) + attribute_pieces_from(
            attrs@,
            0,
            seq![],
            false,
            false,
        ),
{
    let cs = chars_of(attrs);
    let ghost start = styled_texts(spans@);
    let mut current = String::new();
    let mut in_quotes = false;
    let mut in_value = false;
    let mut i: usize = 0;
    while i < cs.len()
        invariant
            i <= cs@.len(),
            cs@ == attrs@,
            styled_texts(spans@) + attribute_pieces_from(
                attrs@,
                i as int,
                current@,
                in_quotes,
                in_value,
            ) == start + attribute_pieces_from(attrs@, 0, seq![], false, false),
        decreases cs.len() - i,
    {
        let ch = cs[i];
        let ghost mid = styled_texts(spans@);
        if ch == '=' && !in_quotes {
            let name = trim_text(current.as_str());
            if !name.as_str().is_empty() {
                push_styled(spans, TextStyle::Raw, String::from_str(" "));
                push_styled(spans, TextStyle::XmlAttributeName, name);
                current = String::new();
            }
            push_styled(spans, TextStyle::XmlPunctuation, String::from_str("="));
            proof {
                reveal_strlit(" ");
                reveal_strlit("=");
                assert(" "@ =~= seq![' ']);
                assert("="@ =~= seq!['=']);
            }
            in_value = true;
        } else if ch == '"' || ch == '\'' {
            if !in_quotes {
                in_quotes = true;
                push_char(&mut current, ch);
            } else {
                push_char(&mut current, ch);
                let value = current;
                push_styled(spans, TextStyle::XmlAttributeValue, value);
                current = String::new();
                in_quotes = false;
                in_value = false;
            }
        } else if is_whitespace(ch) && !in_quotes && !in_value {
            if !current.as_str().is_empty() {
                let word = current;
                push_styled(spans, TextStyle::Raw, word);
            }
            current = String::new();
        } else {
            push_char(&mut current, ch);
        }
        i += 1;
    }
    if !current.as_str().is_empty() {
        push_styled(spans, TextStyle::Raw, current);
    }
}

/// Appends the pieces of the tag name and attributes, between brackets.
pub fn add_tag_components(
    spans: &mut Vec<StyledText>,
    words: &Vec<String>,
    is_closing: bool,
)
    requires
        words@.len() > 0,
    ensures
        styled_texts(final(spans)@) == styled_texts(old(spans)@) + seq![
            (TextStyle::XmlPunctuation, seq!['<']),
            (
                if is_closing {
                    TextStyle::XmlClosingTagName
                } else {
                    TextStyle::XmlTagName
                },
                words@[0]@,
            ),
        ] + (if words@.len() > 1 {
            attribute_pieces_from(
                join_words(words@.map_values(|w: String| w@).drop_first()),
                0,
                seq![],
                false,
                false,
            )
        } else {
            seq![]
        }) + seq![(TextStyle::XmlPunctuation, seq!['>'])],
{
    proof {
        reveal_strlit("<");
        reveal_strlit(">");
        assert("<"@ =~= seq!['<']);
        assert(">"@ =~= seq!['>']);
    }
    push_styled(spans, TextStyle::XmlPunctuation, String::from_str("<"));
    let name = words[0].clone();
    let style = if is_closing {
        TextStyle::XmlClosingTagName
    } else {
        TextStyle::XmlTagName
    };
    push_styled(spans, style, name);
    if words.len() > 1 {
        let attrs = join_from(words, 1);
        assert(words@.map_values(|w: String| w@).skip(1) =~= words@.map_values(
            |w: String| w@,
        ).drop_first());
        colorize_xml_attributes(attrs.as_str(), spans);
    }
    push_styled(spans, TextStyle::XmlPunctuation, String::from_str(">"));
}

/// Appends the pieces of one tag that is not a comment.
pub fn colorize_xml_tag(tag: &str, spans: &mut Vec<StyledText>, is_closing: bool)
    ensures
        styled_texts(final(spans)@) == styled_texts(old(spans)@) + tag_pieces(
            tag@,
            is_closing,
            false,
        ),
{
    let content = strip_tag_brackets(tag);
    if is_xml_declaration(content.as_str()) {
        push_styled(spans, TextStyle::XmlDeclaration, String::from_str(tag));
        return;
    }
    let parts = split_words(content.as_str());
    if parts.len() > 0 {
        add_tag_components(spans, &parts, is_closing);
    } else {
        push_styled(spans, TextStyle::Raw, String::from_str(tag));
    }
}

/// Appends the pieces of the tag that starts with the `<` at position `i`,
/// and gives the position just after it.
pub fn process_xml_tag(s: &Vec<char>, i: usize, spans: &mut Vec<StyledText>) -> (e: usize)
    requires
        i < s@.len(),
        s@[i as int] == '<',
    ensures
        e == tag_end(s@, i + 1, false, ' '),
        i < e <= s@.len(),
        styled_texts(final(spans)@) == styled_texts(old(spans)@) + tag_pieces(
            s@.subrange(i as int, e as int),
            i + 1 < s@.len() && s@[i + 1] == '/',
            i + 1 < s@.len() && s@[i + 1] == '!',
        ),
{
    let is_closing = i + 1 < s.len() && s[i + 1] == '/';
    let is_comment = i + 1 < s.len() && s[i + 1] == '!';
    let e = consume_tag_content(s, i + 1);
    proof {
        lemma_tag_end_bounds(s@, i + 1, false, ' ');
    }
    let tag = string_from_range(s, i, e);
    if is_comment {
        push_styled(spans, TextStyle::XmlComment, tag);
    } else {
        colorize_xml_tag(tag.as_str(), spans, is_closing);
    }
    e
}

/// Colorize XML syntax for better readability: tags, attribute names and
/// values, comments and declarations become styled pieces, text between
/// tags stays raw; a line that gives no piece is one raw piece.
pub fn colorize_xml_line(text: &str) -> (r: Vec<StyledText>)
    ensures
        styled_texts(r@) == colorized_xml_line(text@),
{
    let s = chars_of(text);
    let mut spans: Vec<StyledText> = Vec::new();
    let mut t: usize = 0;
    let mut i: usize = 0;
    assert(styled_texts(spans@) =~= Seq::<(TextStyle, Seq<char>)>::empty());
    while i < s.len()
        invariant
            t <= i <= s@.len(),
            s@ == text@,
            styled_texts(spans@) + xml_pieces_from(s@, i as int, t as int) == xml_pieces_from(
                s@,
                0,
                0,
            ),
        decreases s.len() - i,
    {
        if s[i] == '<' {
            if t < i {
                push_styled(&mut spans, TextStyle::Raw, string_from_range(&s, t, i));
            }
            let e = process_xml_tag(&s, i, &mut spans);
            i = e;
            t = e;
        } else {
            i += 1;
        }
    }
    if t < s.len() {
        push_styled(&mut spans, TextStyle::Raw, string_from_range(&s, t, s.len()));
    }
    if spans.len() == 0 {
        push_styled(&mut spans, TextStyle::Raw, String::from_str(text));
    }
    spans
}

} // verus!
