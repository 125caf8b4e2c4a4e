//! What the help popup lists: the keyboard shortcuts that match the search
//! query, grouped under category headers when there is no query, and the
//! popup's title.

use vstd::prelude::*;
use crate::strings::{
    chars_of, concat3, contains_seq, decimal, lowercase_of, push_char, str_contains, str_equal, to_lowercase,
    usize_to_string,
};

verus! {

/// One keyboard shortcut: its keys, what it does, and its category.
pub struct KeyBinding {
    pub keys: String,
    pub description: String,
    pub category: String,
}

/// The texts of a shortcut: keys, description, category.
pub open spec fn binding_texts(kb: KeyBinding) -> (Seq<char>, Seq<char>, Seq<char>) {
    (kb.keys@, kb.description@, kb.category@)
}

/// The texts of a list of shortcuts.
pub open spec fn bindings_texts(v: Seq<KeyBinding>) -> Seq<(Seq<char>, Seq<char>, Seq<char>)> {
    v.map_values(|kb: KeyBinding| binding_texts(kb))
}

/// Whether a shortcut matches the query: its keys, description or category
/// contains the query, all in lower case.
pub open spec fn binding_matches(b: (Seq<char>, Seq<char>, Seq<char>), query: Seq<char>) -> bool {
    let q = lowercase_of(query);
    contains_seq(lowercase_of(b.0), q) || contains_seq(lowercase_of(b.1), q) || contains_seq(
        lowercase_of(b.2),
        q,
    )
}

fn copy_binding(kb: &KeyBinding) -> (r: KeyBinding)
    ensures
        binding_texts(r) == binding_texts(*kb),
{
    KeyBinding { keys: kb.keys.clone(), description: kb.description.clone(), category: kb.category.clone() }
}

/// The shortcuts the help popup lists for `search_query`, in their order:
/// all of them when the query is empty, else those that match it.
pub fn filter_keybindings(all: &Vec<KeyBinding>, search_query: &str) -> (r: Vec<KeyBinding>)
    ensures
        search_query@.len() == 0 ==> bindings_texts(r@) == bindings_texts(all@),
        search_query@.len() > 0 ==> bindings_texts(r@) == bindings_texts(all@).filter(
            |b: (Seq<char>, Seq<char>, Seq<char>)| binding_matches(b, search_query@),
        ),
{
    let ghost bs = bindings_texts(all@);
    let ghost pred = |b: (Seq<char>, Seq<char>, Seq<char>)| binding_matches(b, search_query@);
    let empty = search_query.is_empty();
    let query_lower = to_lowercase(search_query);
    let mut out: Vec<KeyBinding> = Vec::new();
    let mut i: usize = 0;
    while i < all.len()
        invariant
            i <= all.len(),
            bs == bindings_texts(all@),
            pred == (|b: (Seq<char>, Seq<char>, Seq<char>)| binding_matches(b, search_query@)),
            query_lower@ == lowercase_of(search_query@),
            empty == (search_query@.len() == 0),
            empty ==> bindings_texts(out@) == bs.take(i as int),
            !empty ==> bindings_texts(out@) == bs.take(i as int).filter(pred),
        decreases all.len() - i,
    {
        let kb = &all[i];
        let keep = if empty {
            true
        } else {
            let k = to_lowercase(kb.keys.as_str());
            let d = to_lowercase(kb.description.as_str());
            let c = to_lowercase(kb.category.as_str());
            str_contains(k.as_str(), query_lower.as_str()) || str_contains(d.as_str(), query_lower.as_str())
                || str_contains(c.as_str(), query_lower.as_str())
        };
        proof {
            reveal(Seq::filter);
            assert(bs.take(i + 1).drop_last() == bs.take(i as int));
            assert(bs.take(i + 1).last() == binding_texts(all@[i as int]));
        }
        let ghost before = out@;
        if keep {
            out.push(copy_binding(kb));
            assert(bindings_texts(out@) =~= bindings_texts(before).push(binding_texts(all@[i as int])));
        }
        i += 1;
    }
    assert(bs.take(i as int) == bs);
    out
}

/// How a piece of a help line is drawn.
#[derive(Clone, Copy, Debug, PartialEq, Eq, Structural)]
pub enum HelpPieceStyle {
    /// Plain text.
    Plain,
    /// A category header (yellow, bold).
    CategoryHeader,
    /// The keys of a shortcut (cyan).
    Keys,
    /// The category note after a shortcut in a filtered list (dark gray).
    CategoryNote,
}

/// The width the keys column is padded to.
pub const KEYS_COLUMN_WIDTH: usize = 12;

/// `keys` padded with spaces to `KEYS_COLUMN_WIDTH` characters (as `{:12}`
/// formats it).
pub open spec fn padded_keys(keys: Seq<char>) -> Seq<char> {
    if keys.len() < KEYS_COLUMN_WIDTH {
        keys + Seq::new((KEYS_COLUMN_WIDTH - keys.len()) as nat, |_i: int| ' ')
    } else {
        keys
    }
}

/// The line of one shortcut: indented under its header when headers are
/// shown, else followed by its category in parentheses.
pub open spec fn binding_line(b: (Seq<char>, Seq<char>, Seq<char>), show_headers: bool) -> Seq<
    (Seq<char>, HelpPieceStyle),
> {
    if show_headers {
        seq![
            ("  "@, HelpPieceStyle::Plain),
            (padded_keys(b.0), HelpPieceStyle::Keys),
            (" "@, HelpPieceStyle::Plain),
            (b.1, HelpPieceStyle::Plain),
        ]
    } else {
        seq![
            (padded_keys(b.0), HelpPieceStyle::Keys),
            (" "@, HelpPieceStyle::Plain),
            (b.1, HelpPieceStyle::Plain),
            (" "@, HelpPieceStyle::Plain),
            ("("@ + b.2 + ")"@, HelpPieceStyle::CategoryNote),
        ]
    }
}

/// The header line of a category.
pub open spec fn header_line(category: Seq<char>) -> Seq<(Seq<char>, HelpPieceStyle)> {
    seq![("═══ "@ + category + " ═══"@, HelpPieceStyle::CategoryHeader)]
}

/// The empty line between two categories.
pub open spec fn blank_line() -> Seq<(Seq<char>, HelpPieceStyle)> {
    seq![(""@, HelpPieceStyle::Plain)]
}

/// The lines before a shortcut of category `category` when the previous
/// category was `current`: with headers shown and a new category, a blank
/// line (unless it is the first category) and the header; else none.
pub open spec fn lines_before(category: Seq<char>, current: Seq<char>, show_headers: bool) -> Seq<
    Seq<(Seq<char>, HelpPieceStyle)>,
> {
    if show_headers && category != current {
        if current.len() > 0 {
            seq![blank_line(), header_line(category)]
        } else {
            seq![header_line(category)]
        }
    } else {
        Seq::empty()
    }
}

/// The lines of the shortcuts `bs` when the category shown last is
/// `current`.
pub open spec fn help_lines_from(
    bs: Seq<(Seq<char>, Seq<char>, Seq<char>)>,
    show_headers: bool,
    current: Seq<char>,
) -> Seq<Seq<(Seq<char>, HelpPieceStyle)>>
    decreases bs.len(),
{
    if bs.len() == 0 {
        Seq::empty()
    } else {
        let b = bs[0];
        let next = if show_headers && b.2 != current {
            b.2
        } else {
            current
        };
        lines_before(b.2, current, show_headers).push(binding_line(b, show_headers)) + help_lines_from(
            bs.drop_first(),
            show_headers,
            next,
        )
    }
}

/// The texts and styles of a line.
pub open spec fn line_view(l: Vec<(String, HelpPieceStyle)>) -> Seq<(Seq<char>, HelpPieceStyle)> {
    l@.map_values(|p: (String, HelpPieceStyle)| (p.0@, p.1))
}

/// The texts and styles of a list of lines.
pub open spec fn lines_view(ls: Seq<Vec<(String, HelpPieceStyle)>>) -> Seq<Seq<(Seq<char>, HelpPieceStyle)>> {
    ls.map_values(|l: Vec<(String, HelpPieceStyle)>| line_view(l))
}

/// `keys` padded to the keys column.
fn pad_keys(keys: &str) -> (r: String)
    ensures
        r@ == padded_keys(keys@),
{
    let n = chars_of(keys).len();
    let mut r = String::from_str(keys);
    let mut k: usize = n;
    while k < KEYS_COLUMN_WIDTH
        invariant
            n == keys@.len(),
            n <= k <= KEYS_COLUMN_WIDTH || (n >= KEYS_COLUMN_WIDTH && k == n),
            r@ == keys@ + Seq::new((k - n) as nat, |_i: int| ' '),
        decreases KEYS_COLUMN_WIDTH - k,
    {
        push_char(&mut r, ' ');
        k += 1;
        assert(r@ =~= keys@ + Seq::new((k - n) as nat, |_i: int| ' '));
    }
    if n >= KEYS_COLUMN_WIDTH {
        assert(r@ =~= keys@);
    }
    r
}

fn piece(text: String, style: HelpPieceStyle) -> (r: (String, HelpPieceStyle))
    ensures
        r.0@ == text@,
        r.1 == style,
{
    (text, style)
}

/// The line of one shortcut (see `binding_line`).
fn make_binding_line(kb: &KeyBinding, show_headers: bool) -> (r: Vec<(String, HelpPieceStyle)>)
    ensures
        line_view(r) == binding_line(binding_texts(*kb), show_headers),
{
    let mut r: Vec<(String, HelpPieceStyle)> = Vec::new();
    if show_headers {
        r.push(piece(String::from_str("  "), HelpPieceStyle::Plain));
        r.push(piece(pad_keys(kb.keys.as_str()), HelpPieceStyle::Keys));
        r.push(piece(String::from_str(" "), HelpPieceStyle::Plain));
        r.push(piece(kb.description.clone(), HelpPieceStyle::Plain));
    } else {
        r.push(piece(pad_keys(kb.keys.as_str()), HelpPieceStyle::Keys));
        r.push(piece(String::from_str(" "), HelpPieceStyle::Plain));
        r.push(piece(kb.description.clone(), HelpPieceStyle::Plain));
        r.push(piece(String::from_str(" "), HelpPieceStyle::Plain));
        r.push(piece(concat3("(", kb.category.as_str(), ")"), HelpPieceStyle::CategoryNote));
    }
    assert(line_view(r) =~= binding_line(binding_texts(*kb), show_headers));
    r
}

/// The lines the help popup lists for the shortcuts `bindings` (already
/// filtered): category headers, with a blank line between categories, only
/// when the query is empty (`show_headers`).
pub fn help_list_lines(bindings: &Vec<KeyBinding>, show_headers: bool) -> (r: Vec<Vec<(String, HelpPieceStyle)>>)
    ensures
        lines_view(r@) == help_lines_from(bindings_texts(bindings@), show_headers, Seq::empty()),
{
    let ghost bs = bindings_texts(bindings@);
    let mut out: Vec<Vec<(String, HelpPieceStyle)>> = Vec::new();
    let mut current = String::new();
    let mut i: usize = 0;
    assert(bs.skip(0) =~= bs);
    assert(lines_view(out@) + help_lines_from(bs, show_headers, current@) =~= help_lines_from(bs, show_headers, current@));
    while i < bindings.len()
        invariant
            i <= bindings.len(),
            bs == bindings_texts(bindings@),
            lines_view(out@) + help_lines_from(bs.skip(i as int), show_headers, current@)
                == help_lines_from(bs, show_headers, Seq::empty()),
        decreases bindings.len() - i,
    {
        let kb = &bindings[i];
        let ghost b = binding_texts(*kb);
        let ghost rest = bs.skip(i as int);
        let ghost old_current = current@;
        let ghost before = lines_view(out@);
        proof {
            assert(rest[0] == b);
            assert(rest.drop_first() =~= bs.skip(i + 1));
        }
        if show_headers && !str_equal(kb.category.as_str(), current.as_str()) {
            if !current.as_str().is_empty() {
                let mut blank: Vec<(String, HelpPieceStyle)> = Vec::new();
                blank.push(piece(String::from_str(""), HelpPieceStyle::Plain));
                assert(line_view(blank) =~= blank_line());
                out.push(blank);
            }
            let mut header: Vec<(String, HelpPieceStyle)> = Vec::new();
            header.push(piece(concat3("═══ ", kb.category.as_str(), " ═══"), HelpPieceStyle::CategoryHeader));
            assert(line_view(header) =~= header_line(b.2));
            out.push(header);
            current = kb.category.clone();
        }
        out.push(make_binding_line(kb, show_headers));
        proof {
            assert(lines_view(out@) =~= before + lines_before(b.2, old_current, show_headers).push(
                binding_line(b, show_headers),
            ));
        }
        i += 1;
    }
    assert(bs.skip(i as int) =~= Seq::<(Seq<char>, Seq<char>, Seq<char>)>::empty());
    assert(lines_view(out@) =~= lines_view(out@) + Seq::<Seq<(Seq<char>, HelpPieceStyle)>>::empty());
    out
}

/// The title of the help popup's list, with the number of shortcuts shown.
pub fn help_list_title(count: usize) -> (r: String)
    ensures
        r@ == " LazyMVN - Keyboard Shortcuts ("@ + decimal(count as nat) + " bindings) "@,
{
    concat3(" LazyMVN - Keyboard Shortcuts (", usize_to_string(count).as_str(), " bindings) ")
}

} // verus!
