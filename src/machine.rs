//! The two state machines of the renderer: the code-highlight machine, which
//! decides what a code block turns into, and the footnote promotion buffer,
//! which decides where each piece of output goes.
use vstd::prelude::*;
use crate::event::{Output, Piece, pieces};
use crate::text::{attr_escaped, escape_attribute, concat, push_str};

verus! {

/// Where the code-highlight machine stands. `S` identifies a syntax definition.
pub enum HighlightState<S> {
    NotInCodeBlock,
    /// In an indented block that has seen no text yet.
    AwaitingFirstLine,
    /// In a block rendered as plain, escaped text.
    UnknownSyntax,
    /// In a block being highlighted: the syntax, and the code seen so far.
    Highlighting { syntax: S, code: String },
}

/// Where the footnote promotion buffer stands.
pub enum FootnoteState<P> {
    Idle,
    /// Inside the definition `id`; its output so far is held in `buffer`.
    Open { id: String, buffer: Vec<Output<P>> },
}

/// The value of a [`HighlightState`].
pub enum HighlightModel<S> {
    NotInCodeBlock,
    AwaitingFirstLine,
    UnknownSyntax,
    Highlighting(S, Seq<char>),
}

/// The value of a [`FootnoteState`].
pub enum FootnoteModel<P> {
    Idle,
    Open(Seq<char>, Seq<Piece<P>>),
}

impl<S: View> View for HighlightState<S> {
    type V = HighlightModel<S::V>;

    open spec fn view(&self) -> HighlightModel<S::V> {
        match self {
            HighlightState::NotInCodeBlock => HighlightModel::NotInCodeBlock,
            HighlightState::AwaitingFirstLine => HighlightModel::AwaitingFirstLine,
            HighlightState::UnknownSyntax => HighlightModel::UnknownSyntax,
            HighlightState::Highlighting { syntax, code } => HighlightModel::Highlighting(
                syntax@,
                code@,
            ),
        }
    }
}

impl<P> View for FootnoteState<P> {
    type V = FootnoteModel<P>;

    open spec fn view(&self) -> FootnoteModel<P> {
        match self {
            FootnoteState::Idle => FootnoteModel::Idle,
            FootnoteState::Open { id, buffer } => FootnoteModel::Open(id@, pieces(buffer@)),
        }
    }
}

/// The whole state of one render: both machines, the main output, and the
/// footnote section collected so far.
pub struct Renderer<S, P> {
    pub highlight: HighlightState<S>,
    pub footnote: FootnoteState<P>,
    pub main: Vec<Output<P>>,
    pub section: Vec<Output<P>>,
}

/// The value of a [`Renderer`].
pub struct RenderModel<S, P> {
    pub highlight: HighlightModel<S>,
    pub footnote: FootnoteModel<P>,
    pub main: Seq<Piece<P>>,
    pub section: Seq<Piece<P>>,
}

impl<S: View, P> View for Renderer<S, P> {
    type V = RenderModel<S::V, P>;

    open spec fn view(&self) -> RenderModel<S::V, P> {
        RenderModel {
            highlight: self.highlight@,
            footnote: self.footnote@,
            main: pieces(self.main@),
            section: pieces(self.section@),
        }
    }
}

/// An event that the machines cannot accept in the state they are in.
#[derive(PartialEq, Eq, Structural, Debug, Clone, Copy)]
pub enum Violation {
    /// A code block starts inside another.
    CodeBlockInCodeBlock,
    /// A code block ends where none is open.
    CodeBlockEndOutsideCodeBlock,
    /// A footnote definition starts inside another.
    NestedFootnoteDefinition,
    /// A footnote definition ends where none is open.
    FootnoteEndOutsideDefinition,
    /// A footnote definition ends with another id than it started with.
    MismatchedFootnoteEnd,
    /// The events end inside a code block.
    UnclosedCodeBlock,
    /// The events end inside a footnote definition.
    UnclosedFootnoteDefinition,
}

pub open spec fn ref_name(id: Seq<char>) -> Seq<char> {
    "fn-"@ + id
}

pub open spec fn backref_name(id: Seq<char>) -> Seq<char> {
    "fnref-"@ + id
}

pub open spec fn plain_open() -> Seq<char> {
    "<pre><code>"@
}

pub open spec fn fenced_open(token: Seq<char>) -> Seq<char> {
    "<pre><code class=\""@ + attr_escaped(token) + "\">"@
}

pub open spec fn sniffed_open(name: Seq<char>) -> Seq<char> {
    "<pre lang=\""@ + attr_escaped(name) + "\"><code class=\""@ + attr_escaped(name) + "\">"@
}

pub open spec fn code_close() -> Seq<char> {
    "</code></pre>"@
}

pub open spec fn reference_html(id: Seq<char>) -> Seq<char> {
    "<sup class=\"footnote-ref\"><a href=\"#"@ + attr_escaped(ref_name(id)) + "\" id=\""@
        + attr_escaped(backref_name(id)) + "\"></a></sup>"@
}

pub open spec fn item_open(id: Seq<char>) -> Seq<char> {
    "<li id=\""@ + attr_escaped(ref_name(id)) + "\" class=\"footnote-item\">"@
}

pub open spec fn item_close(id: Seq<char>) -> Seq<char> {
    "<a href=\"#"@ + attr_escaped(backref_name(id))
        + "\" class=\"footnote-backref\">\u{21a9}\u{fe0e}</a></li>"@
}

pub open spec fn section_open() -> Seq<char> {
    "<hr class=\"footnotes-sep\"/><section class=\"footnotes\"><ul class=\"footnotes-list\">"@
}

pub open spec fn section_close() -> Seq<char> {
    "</ul></section>"@
}

/// The state before the first event.
pub open spec fn initial<S, P>() -> RenderModel<S, P> {
    RenderModel {
        highlight: HighlightModel::NotInCodeBlock,
        footnote: FootnoteModel::Idle,
        main: Seq::empty(),
        section: Seq::empty(),
    }
}

pub open spec fn with_highlight<S, P>(m: RenderModel<S, P>, h: HighlightModel<S>) -> RenderModel<S, P> {
    RenderModel { highlight: h, footnote: m.footnote, main: m.main, section: m.section }
}

/// Routing: a piece goes to the open footnote definition if there is one,
/// else to the main output.
pub open spec fn emit<S, P>(m: RenderModel<S, P>, p: Piece<P>) -> RenderModel<S, P> {
    match m.footnote {
        FootnoteModel::Open(id, buffer) => RenderModel {
            highlight: m.highlight,
            footnote: FootnoteModel::Open(id, buffer.push(p)),
            main: m.main,
            section: m.section,
        },
        FootnoteModel::Idle => RenderModel {
            highlight: m.highlight,
            footnote: m.footnote,
            main: m.main.push(p),
            section: m.section,
        },
    }
}

/// A fenced code block starts; `resolved` is what the catalog gave for the token.
pub open spec fn start_fenced<S, P>(m: RenderModel<S, P>, token: Seq<char>, resolved: Option<S>) -> Result<
    RenderModel<S, P>,
    Violation,
> {
    if !(m.highlight is NotInCodeBlock) {
        Err(Violation::CodeBlockInCodeBlock)
    } else if token.len() > 0 && resolved is Some {
        Ok(
            emit(
                with_highlight(m, HighlightModel::Highlighting(resolved->0, Seq::empty())),
                Piece::Html(fenced_open(token)),
            ),
        )
    } else {
        Ok(emit(with_highlight(m, HighlightModel::UnknownSyntax), Piece::Html(plain_open())))
    }
}

/// The value of a recognised syntax and its name.
pub open spec fn found_view<S: View>(o: Option<(S, String)>) -> Option<(S::V, Seq<char>)> {
    match o {
        Some(found) => Some((found.0@, found.1@)),
        None => None,
    }
}

/// The value of a resolved syntax.
pub open spec fn resolved_view<S: View>(o: Option<S>) -> Option<S::V> {
    match o {
        Some(s) => Some(s@),
        None => None,
    }
}

/// An indented code block starts.
pub open spec fn start_indented<S, P>(m: RenderModel<S, P>) -> Result<RenderModel<S, P>, Violation> {
    if !(m.highlight is NotInCodeBlock) {
        Err(Violation::CodeBlockInCodeBlock)
    } else {
        Ok(with_highlight(m, HighlightModel::AwaitingFirstLine))
    }
}

/// A chunk of text; `sniffed` is what the catalog made of it, consulted only
/// for the first chunk of an indented block.
pub open spec fn text<S, P>(m: RenderModel<S, P>, span: Seq<char>, sniffed: Option<(S, Seq<char>)>) -> RenderModel<S, P> {
    match m.highlight {
        HighlightModel::Highlighting(syntax, code) => with_highlight(
            m,
            HighlightModel::Highlighting(syntax, code + span),
        ),
        HighlightModel::AwaitingFirstLine => match sniffed {
            Some(found) => emit(
                with_highlight(m, HighlightModel::Highlighting(found.0, span)),
                Piece::Html(sniffed_open(found.1)),
            ),
            None => emit(
                emit(with_highlight(m, HighlightModel::UnknownSyntax), Piece::Html(plain_open())),
                Piece::Text(span),
            ),
        },
        _ => emit(m, Piece::Text(span)),
    }
}

/// A code block ends; `markup` is what the highlighter made of the block's code.
pub open spec fn end_code<S, P>(m: RenderModel<S, P>, markup: Seq<char>) -> Result<RenderModel<S, P>, Violation> {
    match m.highlight {
        HighlightModel::NotInCodeBlock => Err(Violation::CodeBlockEndOutsideCodeBlock),
        HighlightModel::Highlighting(_, _) => Ok(
            emit(
                with_highlight(m, HighlightModel::NotInCodeBlock),
                Piece::Html(markup + code_close()),
            ),
        ),
        _ => Ok(emit(with_highlight(m, HighlightModel::NotInCodeBlock), Piece::Html(code_close()))),
    }
}

/// An inline footnote reference.
pub open spec fn reference<S, P>(m: RenderModel<S, P>, id: Seq<char>) -> RenderModel<S, P> {
    emit(m, Piece::Html(reference_html(id)))
}

/// A footnote definition starts.
pub open spec fn start_footnote<S, P>(m: RenderModel<S, P>, id: Seq<char>) -> Result<RenderModel<S, P>, Violation> {
    match m.footnote {
        FootnoteModel::Open(_, _) => Err(Violation::NestedFootnoteDefinition),
        FootnoteModel::Idle => Ok(
            RenderModel {
                highlight: m.highlight,
                footnote: FootnoteModel::Open(id, Seq::empty()),
                main: m.main,
                section: m.section,
            },
        ),
    }
}

/// A footnote definition ends: its output, wrapped as a list item, joins the section.
pub open spec fn end_footnote<S, P>(m: RenderModel<S, P>, id: Seq<char>) -> Result<RenderModel<S, P>, Violation> {
    match m.footnote {
        FootnoteModel::Idle => Err(Violation::FootnoteEndOutsideDefinition),
        FootnoteModel::Open(open_id, buffer) => if open_id != id {
            Err(Violation::MismatchedFootnoteEnd)
        } else {
            Ok(
                RenderModel {
                    highlight: m.highlight,
                    footnote: FootnoteModel::Idle,
                    main: m.main,
                    section: m.section + seq![Piece::Html(item_open(id))] + buffer + seq![
                        Piece::Html(item_close(id)),
                    ],
                },
            )
        },
    }
}

/// The output once all events are in: the main output, then the footnote
/// section if it holds anything.
pub open spec fn finish<S, P>(m: RenderModel<S, P>) -> Result<Seq<Piece<P>>, Violation> {
    if !(m.highlight is NotInCodeBlock) {
        Err(Violation::UnclosedCodeBlock)
    } else if m.footnote is Open {
        Err(Violation::UnclosedFootnoteDefinition)
    } else if m.section.len() == 0 {
        Ok(m.main)
    } else {
        Ok(m.main + seq![Piece::Html(section_open())] + m.section + seq![Piece::Html(section_close())])
    }
}

/// The state after a step that may fail; a failed step leaves it unchanged.
pub open spec fn stepped<S, P>(before: RenderModel<S, P>, after: RenderModel<S, P>, r: Result<(), Violation>, model: Result<RenderModel<S, P>, Violation>) -> bool {
    match model {
        Ok(m) => r is Ok && after == m,
        Err(v) => r == Err::<(), Violation>(v) && after == before,
    }
}

/// `fn-{id}`: the id of a footnote's list item.
pub fn fn_ref_name(id: &str) -> (r: String)
    ensures
        r@ == ref_name(id@),
{
    concat("fn-", id)
}

/// `fnref-{id}`: the id of a footnote's inline reference.
pub fn fn_backref_name(id: &str) -> (r: String)
    ensures
        r@ == backref_name(id@),
{
    concat("fnref-", id)
}

fn concat3(a: &str, b: &str, c: &str) -> (r: String)
    ensures
        r@ == a@ + b@ + c@,
{
    let mut r = concat(a, b);
    push_str(&mut r, c);
    r
}

fn fenced_open_html(token: &str) -> (r: String)
    ensures
        r@ == fenced_open(token@),
{
    concat3("<pre><code class=\"", escape_attribute(token).as_str(), "\">")
}

fn sniffed_open_html(name: &str) -> (r: String)
    ensures
        r@ == sniffed_open(name@),
{
    let esc = escape_attribute(name);
    let mut r = concat3("<pre lang=\"", esc.as_str(), "\"><code class=\"");
    push_str(&mut r, esc.as_str());
    push_str(&mut r, "\">");
    r
}

fn reference_markup(id: &str) -> (r: String)
    ensures
        r@ == reference_html(id@),
{
    let mut r = concat3(
        "<sup class=\"footnote-ref\"><a href=\"#",
        escape_attribute(fn_ref_name(id).as_str()).as_str(),
        "\" id=\"",
    );
    push_str(&mut r, escape_attribute(fn_backref_name(id).as_str()).as_str());
    push_str(&mut r, "\"></a></sup>");
    r
}

fn item_open_markup(id: &str) -> (r: String)
    ensures
        r@ == item_open(id@),
{
    concat3(
        "<li id=\"",
        escape_attribute(fn_ref_name(id).as_str()).as_str(),
        "\" class=\"footnote-item\">",
    )
}

fn item_close_markup(id: &str) -> (r: String)
    ensures
        r@ == item_close(id@),
{
    concat3(
        "<a href=\"#",
        escape_attribute(fn_backref_name(id).as_str()).as_str(),
        "\" class=\"footnote-backref\">\u{21a9}\u{fe0e}</a></li>",
    )
}

impl<S: View, P> Renderer<S, P> {
    /// A renderer before the first event.
    pub fn new() -> (r: Self)
        ensures
            r@ == initial::<S::V, P>(),
    {
        let r = Renderer {
            highlight: HighlightState::NotInCodeBlock,
            footnote: FootnoteState::Idle,
            main: Vec::new(),
            section: Vec::new(),
        };
        assert(pieces(r.main@) =~= Seq::<Piece<P>>::empty());
        assert(pieces(r.section@) =~= Seq::<Piece<P>>::empty());
        r
    }

    /// Sends `o` to the open footnote definition, or else to the main output.
    pub fn emit(&mut self, o: Output<P>)
        ensures
            final(self)@ == emit(old(self)@, o@),
    {
        let ghost p = o@;
        match &mut self.footnote {
            FootnoteState::Open { buffer, .. } => {
                let ghost before = buffer@;
                buffer.push(o);
                assert(pieces(before.push(o)) =~= pieces(before).push(p));
            },
            FootnoteState::Idle => {
                let ghost before = self.main@;
                self.main.push(o);
                assert(pieces(before.push(o)) =~= pieces(before).push(p));
            },
        }
    }

    fn emit_html(&mut self, s: String)
        ensures
            final(self)@ == emit(old(self)@, Piece::Html(s@)),
    {
        self.emit(Output::Html(s));
    }

    /// A fenced code block starts; `resolved` is what the catalog gave for
    /// `token` (it is not consulted for an empty token).
    pub fn start_fenced(&mut self, token: &str, resolved: Option<S>) -> (r: Result<(), Violation>)
        ensures
            stepped(old(self)@, final(self)@, r, start_fenced(old(self)@, token@, resolved_view(resolved))),
    {
        if !matches!(self.highlight, HighlightState::NotInCodeBlock) {
            return Err(Violation::CodeBlockInCodeBlock);
        }
        match resolved {
            Some(syntax) => {
                if token.is_empty() {
                    self.highlight = HighlightState::UnknownSyntax;
                    self.emit_html(String::from_str("<pre><code>"));
                } else {
                    self.highlight = HighlightState::Highlighting { syntax, code: String::new() };
                    self.emit_html(fenced_open_html(token));
                }
            },
            None => {
                self.highlight = HighlightState::UnknownSyntax;
                self.emit_html(String::from_str("<pre><code>"));
            },
        }
        Ok(())
    }

    /// An indented code block starts.
    pub fn start_indented(&mut self) -> (r: Result<(), Violation>)
        ensures
            stepped(old(self)@, final(self)@, r, start_indented(old(self)@)),
    {
        if !matches!(self.highlight, HighlightState::NotInCodeBlock) {
            return Err(Violation::CodeBlockInCodeBlock);
        }
        self.highlight = HighlightState::AwaitingFirstLine;
        Ok(())
    }

    /// Whether the next text is the first of an indented block, for which the
    /// catalog is asked to recognise the syntax.
    pub fn awaiting_first_line(&self) -> (r: bool)
        ensures
            r == (self@.highlight is AwaitingFirstLine),
    {
        matches!(self.highlight, HighlightState::AwaitingFirstLine)
    }

    /// A chunk of text; `sniffed` is what the catalog made of it (a syntax
    /// and its name), consulted only while awaiting the first line.
    pub fn text(&mut self, span: String, sniffed: Option<(S, String)>)
        ensures
            final(self)@ == text(old(self)@, span@, found_view(sniffed)),
    {
        match &mut self.highlight {
            HighlightState::Highlighting { code, .. } => {
                push_str(code, span.as_str());
                return;
            },
            _ => {},
        }
        if matches!(self.highlight, HighlightState::AwaitingFirstLine) {
            match sniffed {
                Some(found) => {
                    let (syntax, name) = found;
                    self.highlight = HighlightState::Highlighting { syntax, code: span };
                    self.emit_html(sniffed_open_html(name.as_str()));
                },
                None => {
                    self.highlight = HighlightState::UnknownSyntax;
                    self.emit_html(String::from_str("<pre><code>"));
                    self.emit(Output::Text(span));
                },
            }
        } else {
            self.emit(Output::Text(span));
        }
    }

    /// A code block ends; `markup` is what the highlighter made of the block's
    /// code (used only if the block was being highlighted).
    pub fn end_code(&mut self, markup: String) -> (r: Result<(), Violation>)
        ensures
            stepped(old(self)@, final(self)@, r, end_code(old(self)@, markup@)),
    {
        match self.highlight {
            HighlightState::NotInCodeBlock => Err(Violation::CodeBlockEndOutsideCodeBlock),
            HighlightState::Highlighting { .. } => {
                self.highlight = HighlightState::NotInCodeBlock;
                let mut m = markup;
                push_str(&mut m, "</code></pre>");
                self.emit_html(m);
                Ok(())
            },
            _ => {
                self.highlight = HighlightState::NotInCodeBlock;
                self.emit_html(String::from_str("</code></pre>"));
                Ok(())
            },
        }
    }

    /// An inline footnote reference.
    pub fn reference(&mut self, id: &str)
        ensures
            final(self)@ == reference(old(self)@, id@),
    {
        self.emit_html(reference_markup(id));
    }

    /// A footnote definition starts.
    pub fn start_footnote(&mut self, id: String) -> (r: Result<(), Violation>)
        ensures
            stepped(old(self)@, final(self)@, r, start_footnote(old(self)@, id@)),
    {
        if matches!(self.footnote, FootnoteState::Open { .. }) {
            return Err(Violation::NestedFootnoteDefinition);
        }
        let buffer: Vec<Output<P>> = Vec::new();
        assert(pieces(buffer@) =~= Seq::<Piece<P>>::empty());
        self.footnote = FootnoteState::Open { id, buffer };
        Ok(())
    }

    /// A footnote definition ends.
    pub fn end_footnote(&mut self, id: String) -> (r: Result<(), Violation>)
        ensures
            stepped(old(self)@, final(self)@, r, end_footnote(old(self)@, id@)),
    {
        let ghost before = self@;
        if matches!(self.footnote, FootnoteState::Idle) {
            return Err(Violation::FootnoteEndOutsideDefinition);
        }
        let mut taken: FootnoteState<P> = FootnoteState::Idle;
        core::mem::swap(&mut self.footnote, &mut taken);
        match taken {
            FootnoteState::Idle => Err(Violation::FootnoteEndOutsideDefinition),
            FootnoteState::Open { id: open_id, buffer } => {
                if open_id != id {
                    self.footnote = FootnoteState::Open { id: open_id, buffer };
                    assert(self@ == before);
                    return Err(Violation::MismatchedFootnoteEnd);
                }
                let ghost sec = self.section@;
                let ghost buf = buffer@;
                let mut buffer = buffer;
                self.section.push(Output::Html(item_open_markup(id.as_str())));
                self.section.append(&mut buffer);
                self.section.push(Output::Html(item_close_markup(id.as_str())));
                assert(pieces(self.section@) =~= pieces(sec) + seq![Piece::Html(item_open(id@))]
                    + pieces(buf) + seq![Piece::Html(item_close(id@))]);
                Ok(())
            },
        }
    }

    /// A handed-on event.
    pub fn passthrough(&mut self, p: P)
        ensures
            final(self)@ == emit(old(self)@, Piece::Passthrough(p)),
    {
        self.emit(Output::Passthrough(p));
    }

    /// The output once all events are in.
    pub fn finish(self) -> (r: Result<Vec<Output<P>>, Violation>)
        ensures
            match finish(self@) {
                Ok(ps) => r is Ok && pieces(r->Ok_0@) == ps,
                Err(v) => r == Err::<Vec<Output<P>>, Violation>(v),
            },
    {
        if !matches!(self.highlight, HighlightState::NotInCodeBlock) {
            return Err(Violation::UnclosedCodeBlock);
        }
        if matches!(self.footnote, FootnoteState::Open { .. }) {
            return Err(Violation::UnclosedFootnoteDefinition);
        }
        let Renderer { main, section, .. } = self;
        if section.len() == 0 {
            return Ok(main);
        }
        let ghost m = main@;
        let ghost sec = section@;
        let mut out = main;
        let mut section = section;
        out.push(Output::Html(String::from_str(
            "<hr class=\"footnotes-sep\"/><section class=\"footnotes\"><ul class=\"footnotes-list\">",
        )));
        out.append(&mut section);
        out.push(Output::Html(String::from_str("</ul></section>")));
        assert(pieces(out@) =~= pieces(m) + seq![Piece::Html(section_open())] + pieces(sec)
            + seq![Piece::Html(section_close())]);
        Ok(out)
    }
}

} // verus!
