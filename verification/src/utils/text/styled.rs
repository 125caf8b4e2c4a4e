//! Styled segments of a displayed line: each piece of text with the role
//! that decides how it is coloured.

use vstd::prelude::*;

verus! {

/// The role of a piece of a displayed line.
#[derive(Clone, Copy, Debug, PartialEq, Eq, Structural)]
pub enum TextStyle {
    /// Ordinary text.
    Raw,
    /// A shell command line.
    Command,
    /// The `[DEBUG]` level tag.
    LevelDebug,
    /// The `[INFO]` level tag.
    LevelInfo,
    /// The `[WARNING]` or `[WARN]` level tag.
    LevelWarning,
    /// The `[ERROR]` or `[ERR]` level tag.
    LevelError,
    /// A Java package name.
    Package,
    /// An exception or error name (`...Exception`, `...Error`).
    Exception,
    /// The `at ` of a stack-trace line.
    StackAt,
    /// The class of a stack-trace frame.
    StackClass,
    /// The method of a stack-trace frame.
    StackMethod,
    /// The source location of a stack-trace frame.
    StackSource,
    /// An XML comment.
    XmlComment,
    /// An XML declaration.
    XmlDeclaration,
    /// Angle brackets of an XML tag and `=` of an attribute.
    XmlPunctuation,
    /// The name of an opening XML tag.
    XmlTagName,
    /// The name of a closing XML tag.
    XmlClosingTagName,
    /// The name of an XML attribute.
    XmlAttributeName,
    /// A quoted XML attribute value.
    XmlAttributeValue,
    /// A search match.
    SearchMatch,
    /// The current search match.
    SearchCurrentMatch,
}

/// A piece of text with its style.
pub type StyledText = (TextStyle, String);

/// The styles and texts of a sequence of styled pieces.
pub open spec fn styled_texts(v: Seq<StyledText>) -> Seq<(TextStyle, Seq<char>)> {
    v.map_values(|p: StyledText| (p.0, p.1@))
}

/// The text of a sequence of styled pieces, all pieces put together.
pub open spec fn pieces_text(v: Seq<(TextStyle, Seq<char>)>) -> Seq<char>
    decreases v.len(),
{
    if v.len() == 0 {
        seq![]
    } else {
        pieces_text(v.drop_last()) + v.last().1
    }
}

/// The text of two sequences of pieces put one after the other is the
/// text of the first followed by the text of the second.
pub proof fn lemma_pieces_text_concat(a: Seq<(TextStyle, Seq<char>)>, b: Seq<(TextStyle, Seq<char>)>)
    ensures
        pieces_text(a + b) == pieces_text(a) + pieces_text(b),
    decreases b.len(),
{
    if b.len() == 0 {
        assert(a + b =~= a);
    } else {
        lemma_pieces_text_concat(a, b.drop_last());
        assert((a + b).drop_last() =~= a + b.drop_last());
        assert(pieces_text(a) + pieces_text(b.drop_last()) + b.last().1 =~= pieces_text(a) + (
        pieces_text(b.drop_last()) + b.last().1));
    }
}

/// The text of a single piece is its own text; of no piece, nothing.
pub proof fn lemma_pieces_text_small(p: (TextStyle, Seq<char>))
    ensures
        pieces_text(seq![p]) == p.1,
        pieces_text(Seq::<(TextStyle, Seq<char>)>::empty()) == Seq::<char>::empty(),
{
    let one = seq![p];
    assert(one.len() == 1);
    assert(one.drop_last() =~= Seq::<(TextStyle, Seq<char>)>::empty());
    assert(one.last() == p);
    assert(pieces_text(one.drop_last()) == Seq::<char>::empty());
    assert(Seq::<char>::empty() + p.1 =~= p.1);
}

/// Appends a styled piece to `out`.
pub fn push_styled(out: &mut Vec<StyledText>, style: TextStyle, text: String)
    ensures
        styled_texts(final(out)@) == styled_texts(old(out)@).push((style, text@)),
{
    out.push((style, text));
    assert(styled_texts(out@) =~= styled_texts(old(out)@).push((style, text@)));
}

} // verus!
