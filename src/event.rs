//! The structural events a Markdown document is read as, and the pieces of
//! output the renderer produces from them.
use vstd::prelude::*;
use crate::text::{text_escaped, lemma_text_escaped_concat};

verus! {

/// How a code block was opened.
pub enum CodeBlockKind {
    /// Delimited by a fence line, with the (possibly empty) language token.
    Fenced(String),
    /// Marked by indentation alone; it carries no language hint.
    Indented,
}

/// The blocks whose boundaries the renderer acts on.
pub enum BlockKind {
    CodeBlock(CodeBlockKind),
    /// A footnote definition, with its id.
    FootnoteDefinition(String),
}

/// One structural event of a document. `P` is whatever the event source uses
/// for the events that the renderer hands on untouched (emphasis, links, ...).
pub enum Event<P> {
    Start(BlockKind),
    End(BlockKind),
    /// A chunk of text.
    Text(String),
    /// An inline reference to the footnote with the given id.
    FootnoteReference(String),
    Passthrough(P),
}

/// One piece of rendered output.
pub enum Output<P> {
    /// Markup, written out verbatim.
    Html(String),
    /// Plain text, escaped when written out.
    Text(String),
    /// An event handed on untouched.
    Passthrough(P),
}

/// The mathematical value of an [`Output`].
pub enum Piece<P> {
    Html(Seq<char>),
    Text(Seq<char>),
    Passthrough(P),
}

impl<P> View for Output<P> {
    type V = Piece<P>;

    open spec fn view(&self) -> Piece<P> {
        match self {
            Output::Html(s) => Piece::Html(s@),
            Output::Text(s) => Piece::Text(s@),
            Output::Passthrough(p) => Piece::Passthrough(*p),
        }
    }
}

/// The values of a sequence of outputs.
pub open spec fn pieces<P>(v: Seq<Output<P>>) -> Seq<Piece<P>> {
    v.map_values(|o: Output<P>| o@)
}

/// The HTML that one piece stands for, where `pass` gives the markup of a
/// handed-on event: markup verbatim, text escaped.
pub open spec fn piece_html<P>(p: Piece<P>, pass: spec_fn(P) -> Seq<char>) -> Seq<char> {
    match p {
        Piece::Html(s) => s,
        Piece::Text(s) => text_escaped(s),
        Piece::Passthrough(e) => pass(e),
    }
}

/// The HTML that a sequence of pieces serializes to.
pub open spec fn html_of<P>(ps: Seq<Piece<P>>, pass: spec_fn(P) -> Seq<char>) -> Seq<char>
    decreases ps.len(),
{
    if ps.len() == 0 {
        Seq::empty()
    } else {
        html_of(ps.drop_last(), pass) + piece_html(ps.last(), pass)
    }
}

/// Serializing distributes over concatenation.
pub proof fn lemma_html_of_concat<P>(a: Seq<Piece<P>>, b: Seq<Piece<P>>, pass: spec_fn(P) -> Seq<char>)
    ensures
        html_of(a + b, pass) == html_of(a, pass) + html_of(b, pass),
    decreases b.len(),
{
    if b.len() == 0 {
        assert(a + b == a);
        assert(html_of(a, pass) + Seq::<char>::empty() == html_of(a, pass));
    } else {
        lemma_html_of_concat(a, b.drop_last(), pass);
        assert((a + b).drop_last() == a + b.drop_last());
        assert((a + b).last() == b.last());
        assert(html_of(a, pass) + html_of(b.drop_last(), pass) + piece_html(b.last(), pass)
            == html_of(a, pass) + (html_of(b.drop_last(), pass) + piece_html(b.last(), pass)));
    }
}

/// Two text pieces serialize as the one text piece that joins them.
pub proof fn lemma_html_of_split_text<P>(x: Seq<char>, y: Seq<char>, pass: spec_fn(P) -> Seq<char>)
    ensures
        html_of(seq![Piece::<P>::Text(x), Piece::Text(y)], pass)
            == html_of(seq![Piece::<P>::Text(x + y)], pass),
{
    let two = seq![Piece::<P>::Text(x), Piece::Text(y)];
    let one = seq![Piece::<P>::Text(x + y)];
    lemma_text_escaped_concat(x, y);
    assert(two.drop_last() =~= seq![Piece::<P>::Text(x)]);
    assert(seq![Piece::<P>::Text(x)].drop_last() =~= Seq::<Piece<P>>::empty());
    assert(one.drop_last() =~= Seq::<Piece<P>>::empty());
    assert(html_of(Seq::<Piece<P>>::empty(), pass) == Seq::<char>::empty());
    assert(seq![Piece::<P>::Text(x)].last() == Piece::<P>::Text(x));
    assert(one.last() == Piece::<P>::Text(x + y));
    assert(two.last() == Piece::<P>::Text(y));
    assert(html_of(seq![Piece::<P>::Text(x)], pass) == Seq::<char>::empty() + text_escaped(x));
    assert(Seq::<char>::empty() + text_escaped(x) == text_escaped(x));
    assert(Seq::<char>::empty() + text_escaped(x + y) == text_escaped(x + y));
}

} // verus!
