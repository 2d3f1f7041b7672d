//! Markdown in, HTML out: pulldown-cmark reads the document into events and
//! writes the final HTML; the verified renderer sits in between.
use vstd::prelude::*;
use pulldown_cmark::{CodeBlockKind, Event as MdEvent, Options, Parser, Tag, TagEnd};
use MdEventKind as K;
use crate::catalog::Catalog;
use crate::event::{BlockKind, Event, Output};
use crate::text::string_views;
use crate::machine::Violation;
use crate::stream::{render_events, shape_run, MalformedEventStream, Shape};

verus! {

/// A pulldown-cmark event, held opaquely and handed on as it is.
#[verifier::external_type_specification]
#[verifier::external_body]
pub struct ExMdEvent<'a>(MdEvent<'a>);

/// The variants of a pulldown-cmark event that the renderer tells apart.
#[derive(PartialEq, Eq, Structural, Debug, Clone, Copy)]
pub enum MdEventKind {
    FencedCodeStart,
    IndentedCodeStart,
    FootnoteStart,
    CodeEnd,
    FootnoteEnd,
    Text,
    FootnoteReference,
    Other,
}

/// The kind of each event that pulldown-cmark reads from `src`.
pub uninterp spec fn md_kinds(src: Seq<char>) -> Seq<MdEventKind>;

/// The fence token, footnote label or text that each event pulldown-cmark
/// reads from `src` carries (empty for the others).
pub uninterp spec fn md_labels(src: Seq<char>) -> Seq<Seq<char>>;

/// Relies on `pulldown_cmark::Parser::new_ext`, with every extension but the
/// old footnote syntax: the events of `src`, in order.
#[verifier::external_body]
fn parse<'a>(src: &'a str) -> (r: Vec<MdEvent<'a>>)
    ensures
        r@.len() == md_kinds(src@).len(),
{
    let options = Options::all().difference(Options::ENABLE_OLD_FOOTNOTES).union(Options::ENABLE_FOOTNOTES);
    Parser::new_ext(src, options).collect()
}

/// Relies on `pulldown_cmark::Parser::new_ext` as `parse` calls it, and on
/// the variants of `pulldown_cmark::Event`: the kind of each event of `src`.
#[verifier::external_body]
fn parse_kinds(src: &str) -> (r: Vec<MdEventKind>)
    ensures
        r@ == md_kinds(src@),
{
    let options = Options::all().difference(Options::ENABLE_OLD_FOOTNOTES).union(Options::ENABLE_FOOTNOTES);
    Parser::new_ext(src, options).map(|e| match e {
        MdEvent::Start(Tag::CodeBlock(CodeBlockKind::Fenced(_))) => K::FencedCodeStart,
        MdEvent::Start(Tag::CodeBlock(CodeBlockKind::Indented)) => K::IndentedCodeStart,
        MdEvent::Start(Tag::FootnoteDefinition(_)) => K::FootnoteStart,
        MdEvent::End(TagEnd::CodeBlock) => K::CodeEnd,
        MdEvent::End(TagEnd::FootnoteDefinition) => K::FootnoteEnd,
        MdEvent::Text(_) => K::Text,
        MdEvent::FootnoteReference(_) => K::FootnoteReference,
        _ => K::Other,
    }).collect()
}

/// Relies on `pulldown_cmark::Parser::new_ext` as `parse` calls it, and on
/// the variants of `pulldown_cmark::Event`: what each event of `src` carries.
#[verifier::external_body]
fn parse_labels(src: &str) -> (r: Vec<String>)
    ensures
        string_views(r@) == md_labels(src@),
        r@.len() == md_kinds(src@).len(),
{
    let options = Options::all().difference(Options::ENABLE_OLD_FOOTNOTES).union(Options::ENABLE_FOOTNOTES);
    Parser::new_ext(src, options).map(|e| match e {
        MdEvent::Start(Tag::CodeBlock(CodeBlockKind::Fenced(s))) | MdEvent::Start(Tag::FootnoteDefinition(s)) => s.to_string(),
        MdEvent::Text(s) | MdEvent::FootnoteReference(s) => s.to_string(),
        _ => String::new(),
    }).collect()
}

/// Relies on `pulldown_cmark::Event::Html`: markup that the writer copies verbatim.
#[verifier::external_body]
fn html_event<'a>(s: String) -> MdEvent<'a> {
    MdEvent::Html(s.into())
}

/// Relies on `pulldown_cmark::Event::Text`: text that the writer escapes.
#[verifier::external_body]
fn text_event<'a>(s: String) -> MdEvent<'a> {
    MdEvent::Text(s.into())
}

/// Relies on `pulldown_cmark::html::push_html`: the HTML of the events, in order.
#[verifier::external_body]
fn write_html(events: Vec<MdEvent>) -> String {
    let mut out = String::new();
    pulldown_cmark::html::push_html(&mut out, events.into_iter());
    out
}

/// The label of the footnote definition open after `events`, or the empty
/// label where none is.
pub open spec fn open_label<P>(events: Seq<Event<P>>) -> Seq<char>
    decreases events.len(),
{
    if events.len() == 0 {
        Seq::empty()
    } else {
        match events.last() {
            Event::Start(BlockKind::FootnoteDefinition(id)) => id@,
            Event::End(BlockKind::FootnoteDefinition(_)) => Seq::empty(),
            _ => open_label(events.drop_last()),
        }
    }
}

/// Whether `e` is how the renderer reads an event of kind `kind` carrying
/// `label`, where `open` is the label of the footnote definition open before it.
pub open spec fn reads_as<P>(e: Event<P>, kind: MdEventKind, label: Seq<char>, open: Seq<char>) -> bool {
    match kind {
        MdEventKind::FencedCodeStart => e matches Event::Start(
            BlockKind::CodeBlock(crate::event::CodeBlockKind::Fenced(t)),
        ) && t@ == label,
        MdEventKind::IndentedCodeStart => e matches Event::Start(
            BlockKind::CodeBlock(crate::event::CodeBlockKind::Indented),
        ),
        MdEventKind::FootnoteStart => e matches Event::Start(BlockKind::FootnoteDefinition(id)) && id@ == label,
        MdEventKind::CodeEnd => e matches Event::End(BlockKind::CodeBlock(_)),
        MdEventKind::FootnoteEnd => e matches Event::End(BlockKind::FootnoteDefinition(id)) && id@ == open,
        MdEventKind::Text => e matches Event::Text(t) && t@ == label,
        MdEventKind::FootnoteReference => e matches Event::FootnoteReference(id) && id@ == label,
        MdEventKind::Other => e is Passthrough,
    }
}

/// Reads pulldown-cmark events, with their kinds and labels, as the
/// renderer's events, one for one. Footnote definition ends carry no label,
/// so each is given the label of the definition it closes (the empty one
/// where none is open); events the renderer does not act on are handed on
/// as they are.
pub fn to_events<'a>(md: Vec<MdEvent<'a>>, kinds: &Vec<MdEventKind>, labels: &Vec<String>) -> (r: Vec<Event<MdEvent<'a>>>)
    requires
        kinds@.len() == md@.len(),
        labels@.len() == md@.len(),
    ensures
        r@.len() == md@.len(),
        forall|i: int|
            0 <= i < r@.len() ==> reads_as(#[trigger] r@[i], kinds@[i], labels@[i]@, open_label(r@.take(i))),
        forall|i: int| 0 <= i < r@.len() ==> (#[trigger] r@[i] matches Event::Passthrough(e) ==> e == md@[i]),
{
    let ghost all = md@;
    let n = md.len();
    let mut pending = md;
    let mut queue: Vec<MdEvent<'a>> = Vec::new();
    while pending.len() > 0
        invariant
            all.len() == n,
            pending@ == all.subrange(0, pending@.len() as int),
            queue@.len() == n - pending@.len(),
            forall|j: int| 0 <= j < queue@.len() ==> #[trigger] queue@[j] == all[n - 1 - j],
        decreases pending@.len(),
    {
        let e = pending.pop().unwrap();
        queue.push(e);
    }
    let mut out: Vec<Event<MdEvent<'a>>> = Vec::new();
    let mut open = String::new();
    while queue.len() > 0
        invariant
            all.len() == n,
            kinds@.len() == n,
            labels@.len() == n,
            out@.len() + queue@.len() == n,
            forall|j: int| 0 <= j < queue@.len() ==> #[trigger] queue@[j] == all[n - 1 - j],
            open@ == open_label(out@),
            forall|i: int|
                0 <= i < out@.len() ==> reads_as(#[trigger] out@[i], kinds@[i], labels@[i]@, open_label(out@.take(i))),
            forall|i: int| 0 <= i < out@.len() ==> (#[trigger] out@[i] matches Event::Passthrough(e) ==> e == all[i]),
        decreases queue@.len(),
    {
        let i = out.len();
        let e = queue.pop().unwrap();
        assert(e == all[i as int]);
        let label = labels[i].clone();
        let converted = match kinds[i] {
            MdEventKind::FencedCodeStart => Event::Start(BlockKind::CodeBlock(crate::event::CodeBlockKind::Fenced(label))),
            MdEventKind::IndentedCodeStart => Event::Start(BlockKind::CodeBlock(crate::event::CodeBlockKind::Indented)),
            MdEventKind::FootnoteStart => {
                open = label.clone();
                Event::Start(BlockKind::FootnoteDefinition(label))
            },
            MdEventKind::CodeEnd => Event::End(BlockKind::CodeBlock(crate::event::CodeBlockKind::Indented)),
            MdEventKind::FootnoteEnd => {
                let id = open;
                open = String::new();
                Event::End(BlockKind::FootnoteDefinition(id))
            },
            MdEventKind::Text => Event::Text(label),
            MdEventKind::FootnoteReference => Event::FootnoteReference(label),
            MdEventKind::Other => Event::Passthrough(e),
        };
        let ghost before = out@;
        out.push(converted);
        proof {
            assert(out@.drop_last() == before);
            assert(out@.take(i as int) == before);
            assert forall|k: int| 0 <= k < i implies out@.take(k) == before.take(k) by {}
            assert(open@ == open_label(out@));
        }
    }
    out
}

/// One event's effect on well-formedness, read from its kind and label.
pub open spec fn outline_step(sh: Shape, kind: MdEventKind, label: Seq<char>) -> Result<Shape, Violation> {
    match kind {
        MdEventKind::FencedCodeStart | MdEventKind::IndentedCodeStart => if sh.in_code_block {
            Err(Violation::CodeBlockInCodeBlock)
        } else {
            Ok(Shape { in_code_block: true, open_footnote: sh.open_footnote })
        },
        MdEventKind::CodeEnd => if !sh.in_code_block {
            Err(Violation::CodeBlockEndOutsideCodeBlock)
        } else {
            Ok(Shape { in_code_block: false, open_footnote: sh.open_footnote })
        },
        MdEventKind::FootnoteStart => if sh.open_footnote is Some {
            Err(Violation::NestedFootnoteDefinition)
        } else {
            Ok(Shape { in_code_block: sh.in_code_block, open_footnote: Some(label) })
        },
        MdEventKind::FootnoteEnd => if sh.open_footnote is None {
            Err(Violation::FootnoteEndOutsideDefinition)
        } else {
            Ok(Shape { in_code_block: sh.in_code_block, open_footnote: None })
        },
        _ => Ok(sh),
    }
}

pub open spec fn outline_run(kinds: Seq<MdEventKind>, labels: Seq<Seq<char>>) -> Result<Shape, MalformedEventStream>
    decreases kinds.len(),
{
    if kinds.len() == 0 {
        Ok(Shape { in_code_block: false, open_footnote: None })
    } else {
        match outline_run(kinds.drop_last(), labels.drop_last()) {
            Err(e) => Err(e),
            Ok(sh) => match outline_step(sh, kinds.last(), labels.last()) {
                Ok(next) => Ok(next),
                Err(v) => Err(MalformedEventStream { position: (kinds.len() - 1) as usize, violation: v }),
            },
        }
    }
}

/// The first way in which a document, read as events of these kinds with
/// these labels, is malformed, if any.
pub open spec fn outline_check(kinds: Seq<MdEventKind>, labels: Seq<Seq<char>>) -> Result<(), MalformedEventStream> {
    match outline_run(kinds, labels) {
        Err(e) => Err(e),
        Ok(sh) => if sh.in_code_block {
            Err(MalformedEventStream { position: kinds.len() as usize, violation: Violation::UnclosedCodeBlock })
        } else if sh.open_footnote is Some {
            Err(
                MalformedEventStream {
                    position: kinds.len() as usize,
                    violation: Violation::UnclosedFootnoteDefinition,
                },
            )
        } else {
            Ok(())
        },
    }
}

/// Writes rendered output back as pulldown-cmark events, one for one:
/// markup as HTML events, text as text events, and handed-on events as they
/// were.
pub fn to_md_events<'a>(out: Vec<Output<MdEvent<'a>>>) -> (r: Vec<MdEvent<'a>>)
    ensures
        r@.len() == out@.len(),
        forall|i: int| 0 <= i < r@.len() ==> (#[trigger] out@[i] matches Output::Passthrough(e) ==> r@[i] == e),
{
    let ghost all = out@;
    let n = out.len();
    let mut pending = out;
    let mut queue: Vec<Output<MdEvent<'a>>> = Vec::new();
    while pending.len() > 0
        invariant
            all.len() == n,
            pending@ == all.subrange(0, pending@.len() as int),
            queue@.len() == n - pending@.len(),
            forall|j: int| 0 <= j < queue@.len() ==> #[trigger] queue@[j] == all[n - 1 - j],
        decreases pending@.len(),
    {
        let o = pending.pop().unwrap();
        queue.push(o);
    }
    let mut md: Vec<MdEvent<'a>> = Vec::new();
    while queue.len() > 0
        invariant
            all.len() == n,
            md@.len() + queue@.len() == n,
            forall|j: int| 0 <= j < queue@.len() ==> #[trigger] queue@[j] == all[n - 1 - j],
            forall|i: int| 0 <= i < md@.len() ==> (#[trigger] all[i] matches Output::Passthrough(e) ==> md@[i] == e),
        decreases queue@.len(),
    {
        let ghost i = md@.len() as int;
        let o = queue.pop().unwrap();
        assert(o == all[i]);
        let e = match o {
            Output::Html(s) => html_event(s),
            Output::Text(s) => text_event(s),
            Output::Passthrough(e) => e,
        };
        md.push(e);
    }
    md
}

/// The result of rendering a document body.
pub struct Rendered(String);

impl View for Rendered {
    type V = Seq<char>;

    closed spec fn view(&self) -> Seq<char> {
        self.0@
    }
}

impl Rendered {
    /// The HTML.
    pub fn as_str(&self) -> (r: &str)
        ensures
            r@ == self@,
    {
        self.0.as_str()
    }

    /// The HTML, as an owned string.
    pub fn into_string(self) -> (r: String)
        ensures
            r@ == self@,
    {
        self.0
    }
}

/// The open definition that well-formedness tracks is the one whose label
/// `open_label` gives.
proof fn lemma_open_label_tracks_shape<P>(events: Seq<Event<P>>)
    ensures
        shape_run(events) matches Ok(sh) ==> (sh.open_footnote matches Some(o) ==> o == open_label(events)),
    decreases events.len(),
{
    if events.len() > 0 {
        lemma_open_label_tracks_shape(events.drop_last());
    }
}

/// Events read from an outline are well formed exactly when the outline is.
proof fn lemma_outline_matches<P>(events: Seq<Event<P>>, kinds: Seq<MdEventKind>, labels: Seq<Seq<char>>)
    requires
        kinds.len() == events.len(),
        labels.len() == events.len(),
        forall|i: int| 0 <= i < events.len() ==> reads_as(#[trigger] events[i], kinds[i], labels[i], open_label(events.take(i))),
    ensures
        shape_run(events) == outline_run(kinds, labels),
    decreases events.len(),
{
    if events.len() > 0 {
        let shorter = events.drop_last();
        let n = events.len() - 1;
        assert forall|i: int| 0 <= i < shorter.len() implies reads_as(
            #[trigger] shorter[i],
            kinds.drop_last()[i],
            labels.drop_last()[i],
            open_label(shorter.take(i)),
        ) by {
            assert(shorter.take(i) == events.take(i));
            assert(shorter[i] == events[i]);
        }
        lemma_outline_matches(shorter, kinds.drop_last(), labels.drop_last());
        lemma_open_label_tracks_shape(shorter);
        assert(events.take(n) == shorter);
        assert(reads_as(events[n], kinds[n], labels[n], open_label(shorter)));
        assert(events.last() == events[n]);
    }
}

/// Renders a Markdown document body to HTML, highlighting code blocks with
/// `catalog` and moving footnote definitions into a closing section.
///
/// Fails exactly when the events pulldown-cmark reads from `src` form a
/// malformed stream, with the first violation; the body between parsing and
/// writing is `render_events`, and how the writer spells the result is
/// pulldown-cmark's.
pub fn render_markdown(src: &str, catalog: &Catalog) -> (r: Result<Rendered, MalformedEventStream>)
    ensures
        match outline_check(md_kinds(src@), md_labels(src@)) {
            Err(e) => r == Err::<Rendered, MalformedEventStream>(e),
            Ok(_) => r is Ok,
        },
{
    let md = parse(src);
    let kinds = parse_kinds(src);
    let labels = parse_labels(src);
    let events = to_events(md, &kinds, &labels);
    let ghost seen = events@;
    let n = events.len();
    proof {
        assert(string_views(labels@).len() == labels@.len());
        assert forall|i: int| 0 <= i < labels@.len() implies #[trigger] string_views(labels@)[i] == labels@[i]@ by {}
        lemma_outline_matches(seen, kinds@, string_views(labels@));
        assert(seen.len() == n);
    }
    match render_events(events, catalog) {
        Ok(out) => Ok(Rendered(write_html(to_md_events(out)))),
        Err(e) => Err(e),
    }
}

} // verus!
