//! One pass over a document's events: the model of the whole render, the
//! well-formedness of an event stream, and the driver that runs the machines
//! against the syntax catalog.
use vstd::prelude::*;
use crate::catalog::{classed_markup, first_line_syntax, syntax_name, token_syntax, Catalog, Syntax};
use crate::event::{BlockKind, CodeBlockKind, Event, Output, Piece, pieces};
use crate::machine::{
    emit, end_code, found_view, end_footnote, finish, initial, reference, start_fenced, start_footnote,
    start_indented, text, FootnoteModel, HighlightModel, HighlightState, RenderModel, Renderer,
    Violation,
};

verus! {

/// What the renderer asks of a syntax catalog and its highlighter, as
/// functions: the syntax a fence token resolves to, the syntax (and its
/// name) recognised from a first line, and the markup made of a block's code.
#[verifier::reject_recursive_types(S)]
pub struct CatalogModel<S> {
    pub resolve: spec_fn(Seq<char>) -> Option<S>,
    pub sniff: spec_fn(Seq<char>) -> Option<(S, Seq<char>)>,
    pub markup: spec_fn(S, Seq<char>) -> Seq<char>,
}

/// The catalog of syntect's bundled definitions, with syntaxes by position.
pub open spec fn bundled() -> CatalogModel<nat> {
    CatalogModel {
        resolve: |token: Seq<char>| token_syntax(token),
        sniff: |text: Seq<char>|
            match first_line_syntax(text) {
                Some(id) => Some((id, syntax_name(id))),
                None => None,
            },
        markup: |id: nat, code: Seq<char>| classed_markup(id, code),
    }
}

/// The event stream does not have the shape the renderer accepts.
#[derive(PartialEq, Eq, Structural, Debug, Clone, Copy)]
pub struct MalformedEventStream {
    /// The index of the offending event, or the number of events where the
    /// stream ends inside a block.
    pub position: usize,
    pub violation: Violation,
}

/// One event, with the catalog's answers where the machines ask for them.
pub open spec fn step<S, P>(m: RenderModel<S, P>, e: Event<P>, cat: CatalogModel<S>) -> Result<RenderModel<S, P>, Violation> {
    match e {
        Event::Start(BlockKind::CodeBlock(CodeBlockKind::Fenced(token))) => start_fenced(
            m,
            token@,
            (cat.resolve)(token@),
        ),
        Event::Start(BlockKind::CodeBlock(CodeBlockKind::Indented)) => start_indented(m),
        Event::Start(BlockKind::FootnoteDefinition(id)) => start_footnote(m, id@),
        Event::End(BlockKind::CodeBlock(_)) => end_code(
            m,
            match m.highlight {
                HighlightModel::Highlighting(syntax, code) => (cat.markup)(syntax, code),
                _ => Seq::empty(),
            },
        ),
        Event::End(BlockKind::FootnoteDefinition(id)) => end_footnote(m, id@),
        Event::Text(span) => Ok(text(m, span@, (cat.sniff)(span@))),
        Event::FootnoteReference(id) => Ok(reference(m, id@)),
        Event::Passthrough(p) => Ok(emit(m, Piece::Passthrough(p))),
    }
}

/// The state after `events`, asking `cat`.
pub open spec fn run<S, P>(events: Seq<Event<P>>, cat: CatalogModel<S>) -> Result<RenderModel<S, P>, MalformedEventStream>
    decreases events.len(),
{
    if events.len() == 0 {
        Ok(initial())
    } else {
        match run(events.drop_last(), cat) {
            Err(e) => Err(e),
            Ok(m) => match step(m, events.last(), cat) {
                Ok(next) => Ok(next),
                Err(v) => Err(MalformedEventStream { position: (events.len() - 1) as usize, violation: v }),
            },
        }
    }
}

/// The rendered output of `events`, asking `cat`.
pub open spec fn render<S, P>(events: Seq<Event<P>>, cat: CatalogModel<S>) -> Result<Seq<Piece<P>>, MalformedEventStream> {
    match run(events, cat) {
        Err(e) => Err(e),
        Ok(m) => match finish(m) {
            Ok(ps) => Ok(ps),
            Err(v) => Err(MalformedEventStream { position: events.len() as usize, violation: v }),
        },
    }
}

/// What well-formedness depends on: whether a code block is open, and which
/// footnote definition is.
pub struct Shape {
    pub in_code_block: bool,
    pub open_footnote: Option<Seq<char>>,
}

pub open spec fn shape_of<S, P>(m: RenderModel<S, P>) -> Shape {
    Shape {
        in_code_block: !(m.highlight is NotInCodeBlock),
        open_footnote: match m.footnote {
            FootnoteModel::Open(id, _) => Some(id),
            FootnoteModel::Idle => None,
        },
    }
}

pub open spec fn shape_step<P>(sh: Shape, e: Event<P>) -> Result<Shape, Violation> {
    match e {
        Event::Start(BlockKind::CodeBlock(_)) => if sh.in_code_block {
            Err(Violation::CodeBlockInCodeBlock)
        } else {
            Ok(Shape { in_code_block: true, open_footnote: sh.open_footnote })
        },
        Event::End(BlockKind::CodeBlock(_)) => if !sh.in_code_block {
            Err(Violation::CodeBlockEndOutsideCodeBlock)
        } else {
            Ok(Shape { in_code_block: false, open_footnote: sh.open_footnote })
        },
        Event::Start(BlockKind::FootnoteDefinition(id)) => if sh.open_footnote is Some {
            Err(Violation::NestedFootnoteDefinition)
        } else {
            Ok(Shape { in_code_block: sh.in_code_block, open_footnote: Some(id@) })
        },
        Event::End(BlockKind::FootnoteDefinition(id)) => match sh.open_footnote {
            None => Err(Violation::FootnoteEndOutsideDefinition),
            Some(open) => if open != id@ {
                Err(Violation::MismatchedFootnoteEnd)
            } else {
                Ok(Shape { in_code_block: sh.in_code_block, open_footnote: None })
            },
        },
        _ => Ok(sh),
    }
}

pub open spec fn shape_run<P>(events: Seq<Event<P>>) -> Result<Shape, MalformedEventStream>
    decreases events.len(),
{
    if events.len() == 0 {
        Ok(Shape { in_code_block: false, open_footnote: None })
    } else {
        match shape_run(events.drop_last()) {
            Err(e) => Err(e),
            Ok(sh) => match shape_step(sh, events.last()) {
                Ok(next) => Ok(next),
                Err(v) => Err(MalformedEventStream { position: (events.len() - 1) as usize, violation: v }),
            },
        }
    }
}

/// The first way in which `events` is malformed, if any: a block start inside
/// a block of its kind, an end with no matching start, a footnote definition
/// closed under another id, or a block still open when the events end.
pub open spec fn stream_check<P>(events: Seq<Event<P>>) -> Result<(), MalformedEventStream> {
    match shape_run(events) {
        Err(e) => Err(e),
        Ok(sh) => if sh.in_code_block {
            Err(MalformedEventStream { position: events.len() as usize, violation: Violation::UnclosedCodeBlock })
        } else if sh.open_footnote is Some {
            Err(
                MalformedEventStream {
                    position: events.len() as usize,
                    violation: Violation::UnclosedFootnoteDefinition,
                },
            )
        } else {
            Ok(())
        },
    }
}

proof fn lemma_step_shape<S, P>(m: RenderModel<S, P>, e: Event<P>, cat: CatalogModel<S>)
    ensures
        match (step(m, e, cat), shape_step(shape_of(m), e)) {
            (Ok(next), Ok(sh)) => shape_of(next) == sh,
            (Err(v), Err(w)) => v == w,
            _ => false,
        },
{
}

/// Whether rendering fails, and how, depends on the events alone, whatever
/// the catalog answers.
pub proof fn lemma_run_shape<S, P>(events: Seq<Event<P>>, cat: CatalogModel<S>)
    ensures
        match (run(events, cat), shape_run(events)) {
            (Ok(m), Ok(sh)) => shape_of(m) == sh,
            (Err(e), Err(f)) => e == f,
            _ => false,
        },
    decreases events.len(),
{
    if events.len() > 0 {
        lemma_run_shape(events.drop_last(), cat);
        if let Ok(m) = run(events.drop_last(), cat) {
            lemma_step_shape(m, events.last(), cat);
        }
    }
}

/// Rendering fails exactly on malformed streams, with the same error.
pub proof fn lemma_render_fails_iff_malformed<S, P>(events: Seq<Event<P>>, cat: CatalogModel<S>)
    ensures
        render(events, cat) is Err <==> stream_check(events) is Err,
        stream_check(events) is Err ==> render(events, cat) == Err::<Seq<Piece<P>>, MalformedEventStream>(
            stream_check(events)->Err_0,
        ),
{
    lemma_run_shape(events, cat);
}

/// Once a prefix is malformed, so is every stream that starts with it.
proof fn lemma_shape_run_err_extends<P>(events: Seq<Event<P>>, n: int)
    requires
        0 <= n <= events.len(),
        shape_run(events.subrange(0, n)) is Err,
    ensures
        shape_run(events) == shape_run(events.subrange(0, n)),
    decreases events.len() - n,
{
    if n < events.len() {
        let longer = events.subrange(0, n + 1);
        assert(longer.drop_last() == events.subrange(0, n));
        lemma_shape_run_err_extends(events, n + 1);
    } else {
        assert(events.subrange(0, n) == events);
    }
}

/// Renders a document's events against `catalog`.
///
/// Fails exactly when the stream is malformed, with the first violation;
/// otherwise the output is what the model gives with the bundled catalog
/// (`bundled()`), so every law of `laws`, stated for any catalog model,
/// holds of it.
pub fn render_events<P>(events: Vec<Event<P>>, catalog: &Catalog) -> (r: Result<Vec<Output<P>>, MalformedEventStream>)
    ensures
        match stream_check(events@) {
            Err(e) => r == Err::<Vec<Output<P>>, MalformedEventStream>(e),
            Ok(_) => r is Ok && render(events@, bundled()) == Ok::<Seq<Piece<P>>, MalformedEventStream>(
                pieces(r->Ok_0@),
            ),
        },
{
    let ghost all = events@;
    let ghost cat = bundled();
    let n = events.len();
    // Reverse the events so that popping hands them out in order.
    let mut pending = events;
    let mut queue: Vec<Event<P>> = Vec::new();
    while pending.len() > 0
        invariant
            all == events@,
            all.len() == n,
            pending@ == all.subrange(0, pending@.len() as int),
            queue@.len() == n - pending@.len(),
            forall|j: int| 0 <= j < queue@.len() ==> #[trigger] queue@[j] == all[n - 1 - j],
        decreases pending@.len(),
    {
        let e = pending.pop().unwrap();
        queue.push(e);
    }
    let mut renderer: Renderer<Syntax, P> = Renderer::new();
    let mut i: usize = 0;
    while i < n
        invariant
            all == events@,
            cat == bundled(),
            all.len() == n,
            queue@.len() == n - i,
            forall|j: int| 0 <= j < queue@.len() ==> #[trigger] queue@[j] == all[n - 1 - j],
            run(all.subrange(0, i as int), cat) == Ok::<RenderModel<nat, P>, MalformedEventStream>(renderer@),
        decreases n - i,
    {
        let e = queue.pop().unwrap();
        assert(e == all[i as int]);
        let ghost before = renderer@;
        let ghost expected = step(before, e, cat);
        let outcome: Result<(), Violation> = match e {
            Event::Start(BlockKind::CodeBlock(CodeBlockKind::Fenced(token))) => {
                let resolved = if token.as_str().is_empty() {
                    None
                } else {
                    catalog.resolve(token.as_str())
                };
                renderer.start_fenced(token.as_str(), resolved)
            },
            Event::Start(BlockKind::CodeBlock(CodeBlockKind::Indented)) => renderer.start_indented(),
            Event::Start(BlockKind::FootnoteDefinition(id)) => renderer.start_footnote(id),
            Event::End(BlockKind::CodeBlock(_)) => {
                let markup = match &renderer.highlight {
                    HighlightState::Highlighting { syntax, code } => catalog.highlight(syntax, code.as_str()),
                    _ => String::new(),
                };
                renderer.end_code(markup)
            },
            Event::End(BlockKind::FootnoteDefinition(id)) => renderer.end_footnote(id),
            Event::Text(span) => {
                let sniffed = if renderer.awaiting_first_line() {
                    match catalog.sniff(span.as_str()) {
                        Some(s) => {
                            let name = catalog.name_of(&s);
                            Some((s, name))
                        },
                        None => None,
                    }
                } else {
                    None
                };
                renderer.text(span, sniffed);
                Ok(())
            },
            Event::FootnoteReference(id) => {
                renderer.reference(id.as_str());
                Ok(())
            },
            Event::Passthrough(p) => {
                renderer.passthrough(p);
                Ok(())
            },
        };
        proof {
            match expected {
                Ok(m) => assert(outcome is Ok && renderer@ == m),
                Err(v) => assert(outcome == Err::<(), Violation>(v)),
            }
        }
        let ghost prefix = all.subrange(0, i + 1);
        proof {
            assert(prefix.drop_last() == all.subrange(0, i as int));
            assert(prefix.last() == all[i as int]);
        }
        match outcome {
            Err(v) => {
                let err = MalformedEventStream { position: i, violation: v };
                proof {
                    assert(run(prefix, cat) == Err::<RenderModel<nat, P>, MalformedEventStream>(err));
                    lemma_run_shape(prefix, cat);
                    assert(shape_run(prefix) == Err::<Shape, MalformedEventStream>(err));
                    lemma_shape_run_err_extends(all, i + 1);
                }
                return Err(err);
            },
            Ok(()) => {},
        }
        i = i + 1;
    }
    proof {
        assert(all.subrange(0, n as int) == all);
        lemma_run_shape(all, cat);
    }
    match renderer.finish() {
        Ok(out) => Ok(out),
        Err(v) => Err(MalformedEventStream { position: n, violation: v }),
    }
}

} // verus!
