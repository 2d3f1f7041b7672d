//! What holds of every render: the fallback for unknown fence tokens, the
//! opening of a highlighted block, independence from how text is chunked,
//! footnote promotion, and the absence of a footnote section when there are
//! no footnotes.
use vstd::prelude::*;
use crate::event::{html_of, lemma_html_of_concat, lemma_html_of_split_text, piece_html, BlockKind, CodeBlockKind, Event, Piece};
use crate::machine::{
    code_close, emit, fenced_open, finish, initial, item_close, item_open, plain_open, reference_html,
    section_close, section_open, FootnoteModel, HighlightModel, RenderModel,
};
use crate::stream::{render, run, step, CatalogModel};
use crate::text::{attr_escaped, lemma_attr_escaped_is_inert, text_escaped};

verus! {

/// The state after `events` from `m`, asking `cat`; `None` once an event
/// is refused.
pub open spec fn advance<S, P>(m: RenderModel<S, P>, events: Seq<Event<P>>, cat: CatalogModel<S>) -> Option<RenderModel<S, P>>
    decreases events.len(),
{
    if events.len() == 0 {
        Some(m)
    } else {
        match advance(m, events.drop_last(), cat) {
            None => None,
            Some(before) => match step(before, events.last(), cat) {
                Ok(after) => Some(after),
                Err(_) => None,
            },
        }
    }
}

proof fn lemma_run_advance<S, P>(events: Seq<Event<P>>, cat: CatalogModel<S>)
    ensures
        match run(events, cat) {
            Ok(m) => advance(initial(), events, cat) == Some(m),
            Err(_) => advance(initial::<S, P>(), events, cat) is None,
        },
    decreases events.len(),
{
    if events.len() > 0 {
        lemma_run_advance(events.drop_last(), cat);
    }
}

proof fn lemma_advance_concat<S, P>(
    m: RenderModel<S, P>,
    x: Seq<Event<P>>,
    y: Seq<Event<P>>,
    cat: CatalogModel<S>,
)
    ensures
        advance(m, x + y, cat) == match advance(m, x, cat) {
            None => None,
            Some(mid) => advance(mid, y, cat),
        },
    decreases y.len(),
{
    if y.len() == 0 {
        assert(x + y == x);
    } else {
        lemma_advance_concat(m, x, y.drop_last(), cat);
        assert((x + y).drop_last() == x + y.drop_last());
        assert((x + y).last() == y.last());
    }
}

/// The output of a whole render, read through `advance`.
proof fn lemma_render_advance<S, P>(events: Seq<Event<P>>, cat: CatalogModel<S>)
    ensures
        render(events, cat) is Ok <==> (advance(initial::<S, P>(), events, cat) is Some && finish(
            advance(initial::<S, P>(), events, cat)->Some_0,
        ) is Ok),
        render(events, cat) is Ok ==> render(events, cat)->Ok_0 == finish(
            advance(initial::<S, P>(), events, cat)->Some_0,
        )->Ok_0,
{
    lemma_run_advance(events, cat);
}

proof fn lemma_advance_push<S, P>(
    m: RenderModel<S, P>,
    evs: Seq<Event<P>>,
    e: Event<P>,
    cat: CatalogModel<S>,
)
    ensures
        advance(m, evs.push(e), cat) == match advance(m, evs, cat) {
            None => None,
            Some(before) => match step(before, e, cat) {
                Ok(after) => Some(after),
                Err(_) => None,
            },
        },
{
    assert(evs.push(e).drop_last() == evs);
}

/// `advance` over three events, one at a time.
proof fn lemma_advance_three<S, P>(
    m: RenderModel<S, P>,
    e0: Event<P>,
    e1: Event<P>,
    e2: Event<P>,
    cat: CatalogModel<S>,
)
    ensures
        advance(m, seq![e0, e1, e2], cat) == match step(m, e0, cat) {
            Err(_) => None,
            Ok(m1) => match step(m1, e1, cat) {
                Err(_) => None,
                Ok(m2) => match step(m2, e2, cat) {
                    Err(_) => None,
                    Ok(m3) => Some(m3),
                },
            },
        },
{
    let none_e = Seq::<Event<P>>::empty();
    lemma_advance_push(m, none_e, e0, cat);
    lemma_advance_push(m, none_e.push(e0), e1, cat);
    lemma_advance_push(m, none_e.push(e0).push(e1), e2, cat);
    assert(none_e.push(e0).push(e1).push(e2) == seq![e0, e1, e2]);
}

proof fn lemma_html_of_push<P>(ps: Seq<Piece<P>>, p: Piece<P>, pass: spec_fn(P) -> Seq<char>)
    ensures
        html_of(ps.push(p), pass) == html_of(ps, pass) + piece_html(p, pass),
{
    assert(ps.push(p).drop_last() == ps);
}

/// A code block whose fence token is empty or unknown to the catalog renders
/// as `<pre><code>`, with no class, then its text as text, which is escaped
/// when written, then `</code></pre>`; it goes where any other output would.
pub proof fn law_unknown_fence_is_plain<S, P>(
    m: RenderModel<S, P>,
    token: String,
    body: String,
    cat: CatalogModel<S>,
    pass: spec_fn(P) -> Seq<char>,
)
    requires
        m.highlight is NotInCodeBlock,
        token@.len() == 0 || (cat.resolve)(token@) is None,
    ensures
        advance(
            m,
            seq![
                Event::<P>::Start(BlockKind::CodeBlock(CodeBlockKind::Fenced(token))),
                Event::Text(body),
                Event::End(BlockKind::CodeBlock(CodeBlockKind::Fenced(token))),
            ],
            cat,
        ) == Some(
            emit(
                emit(emit(m, Piece::Html(plain_open())), Piece::<P>::Text(body@)),
                Piece::Html(code_close()),
            ),
        ),
        plain_open() == "<pre><code>"@,
        html_of(seq![Piece::<P>::Html(plain_open()), Piece::Text(body@), Piece::Html(code_close())], pass)
            == "<pre><code>"@ + text_escaped(body@) + "</code></pre>"@,
{
    lemma_advance_three(
        m,
        Event::<P>::Start(BlockKind::CodeBlock(CodeBlockKind::Fenced(token))),
        Event::Text(body),
        Event::End(BlockKind::CodeBlock(CodeBlockKind::Fenced(token))),
        cat,
    );
    let none = Seq::<Piece<P>>::empty();
    let p0 = Piece::<P>::Html(plain_open());
    let p1 = Piece::<P>::Text(body@);
    let p2 = Piece::<P>::Html(code_close());
    lemma_html_of_push(none, p0, pass);
    lemma_html_of_push(none.push(p0), p1, pass);
    lemma_html_of_push(none.push(p0).push(p1), p2, pass);
    assert(none.push(p0).push(p1).push(p2) == seq![p0, p1, p2]);
    assert(Seq::<char>::empty() + "<pre><code>"@ == "<pre><code>"@);
}

/// A code block whose fence token the catalog resolves opens with
/// `<pre><code class="{token}">`, the token escaped so that it holds no
/// quote or angle bracket, and closes with the highlighter's markup followed
/// by `</code></pre>`: the code itself reaches the output only through the
/// highlighter.
pub proof fn law_known_fence_is_classed<S, P>(
    m: RenderModel<S, P>,
    token: String,
    body: String,
    cat: CatalogModel<S>,
)
    requires
        m.highlight is NotInCodeBlock,
        token@.len() > 0,
        (cat.resolve)(token@) is Some,
    ensures
        advance(
            m,
            seq![
                Event::<P>::Start(BlockKind::CodeBlock(CodeBlockKind::Fenced(token))),
                Event::Text(body),
                Event::End(BlockKind::CodeBlock(CodeBlockKind::Fenced(token))),
            ],
            cat,
        ) == Some(
            emit(
                emit(m, Piece::<P>::Html(fenced_open(token@))),
                Piece::Html((cat.markup)((cat.resolve)(token@)->0, body@) + code_close()),
            ),
        ),
        fenced_open(token@) == "<pre><code class=\""@ + attr_escaped(token@) + "\">"@,
        forall|i: int|
            0 <= i < attr_escaped(token@).len() ==> {
                let c = #[trigger] attr_escaped(token@)[i];
                c != '"' && c != '\'' && c != '<' && c != '>'
            },
{
    lemma_advance_three(
        m,
        Event::<P>::Start(BlockKind::CodeBlock(CodeBlockKind::Fenced(token))),
        Event::Text(body),
        Event::End(BlockKind::CodeBlock(CodeBlockKind::Fenced(token))),
        cat,
    );
    assert(Seq::<char>::empty() + body@ == body@);
    lemma_attr_escaped_is_inert(token@);
}

/// Whether `events` holds no footnote definition.
pub open spec fn no_footnote_definitions<P>(events: Seq<Event<P>>) -> bool {
    forall|i: int| 0 <= i < events.len() ==> !(#[trigger] events[i] matches Event::Start(BlockKind::FootnoteDefinition(_)))
}

proof fn lemma_no_definitions_keep_section_empty<S, P>(events: Seq<Event<P>>, cat: CatalogModel<S>)
    requires
        no_footnote_definitions(events),
    ensures
        advance(initial::<S, P>(), events, cat) matches Some(m) ==> m.footnote is Idle && m.section.len() == 0,
    decreases events.len(),
{
    if events.len() > 0 {
        let shorter = events.drop_last();
        assert forall|i: int| 0 <= i < shorter.len() implies !(#[trigger] shorter[i] matches Event::Start(
            BlockKind::FootnoteDefinition(_),
        )) by {
            assert(shorter[i] == events[i]);
        }
        lemma_no_definitions_keep_section_empty(shorter, cat);
        assert(events.last() == events[events.len() - 1]);
    }
}

/// A document with no footnote definition renders, if at all, as its main
/// output alone: no footnote section is appended.
pub proof fn law_no_footnotes_no_section<S, P>(events: Seq<Event<P>>, cat: CatalogModel<S>)
    requires
        no_footnote_definitions(events),
    ensures
        render(events, cat) matches Ok(out) ==> run(events, cat) matches Ok(m) && m.section.len() == 0
            && out == m.main,
{
    lemma_no_definitions_keep_section_empty(events, cat);
    lemma_run_advance(events, cat);
}

/// Events handed on untouched, one for each of `ps`.
pub open spec fn handed_on_events<P>(ps: Seq<P>) -> Seq<Event<P>> {
    ps.map_values(|p: P| Event::Passthrough(p))
}

/// The output of events handed on untouched.
pub open spec fn handed_on<P>(ps: Seq<P>) -> Seq<Piece<P>> {
    ps.map_values(|p: P| Piece::Passthrough(p))
}

/// `m` with `extra` added wherever output currently goes.
pub open spec fn emit_all<S, P>(m: RenderModel<S, P>, extra: Seq<Piece<P>>) -> RenderModel<S, P> {
    match m.footnote {
        FootnoteModel::Open(id, buffer) => RenderModel {
            highlight: m.highlight,
            footnote: FootnoteModel::Open(id, buffer + extra),
            main: m.main,
            section: m.section,
        },
        FootnoteModel::Idle => RenderModel {
            highlight: m.highlight,
            footnote: m.footnote,
            main: m.main + extra,
            section: m.section,
        },
    }
}

proof fn lemma_advance_handed_on<S, P>(m: RenderModel<S, P>, ps: Seq<P>, cat: CatalogModel<S>)
    ensures
        advance(m, handed_on_events(ps), cat) == Some(emit_all(m, handed_on(ps))),
    decreases ps.len(),
{
    if ps.len() == 0 {
        assert(handed_on_events(ps) == Seq::<Event<P>>::empty());
        assert(handed_on(ps) == Seq::<Piece<P>>::empty());
        assert(m.main + Seq::<Piece<P>>::empty() == m.main);
        if let FootnoteModel::Open(id, buffer) = m.footnote {
            assert(buffer + Seq::<Piece<P>>::empty() == buffer);
        }
    } else {
        let shorter = ps.drop_last();
        lemma_advance_handed_on(m, shorter, cat);
        assert(handed_on_events(ps).drop_last() == handed_on_events(shorter));
        assert(handed_on_events(ps).last() == Event::<P>::Passthrough(ps.last()));
        assert(handed_on(ps) == handed_on(shorter).push(Piece::<P>::Passthrough(ps.last())));
        assert(m.main + handed_on(ps) == (m.main + handed_on(shorter)).push(Piece::<P>::Passthrough(ps.last())));
        if let FootnoteModel::Open(id, buffer) = m.footnote {
            assert(buffer + handed_on(ps) == (buffer + handed_on(shorter)).push(Piece::<P>::Passthrough(ps.last())));
        }
    }
}

proof fn lemma_advance_one<S, P>(m: RenderModel<S, P>, e: Event<P>, cat: CatalogModel<S>)
    ensures
        advance(m, seq![e], cat) == match step(m, e, cat) {
            Ok(after) => Some(after),
            Err(_) => None,
        },
{
    lemma_advance_push(m, Seq::<Event<P>>::empty(), e, cat);
    assert(Seq::<Event<P>>::empty().push(e) == seq![e]);
}

/// A document with one reference to footnote `id` and one definition of it,
/// amid events handed on untouched, renders as: the main output with the
/// reference marker `<sup class="footnote-ref"><a href="#fn-{id}"
/// id="fnref-{id}"></a></sup>` in place, then the footnote section holding
/// the one list item `<li id="fn-{id}" ...>`, which holds the definition's
/// output and ends with the link back `<a href="#fnref-{id}" ...>`.
pub proof fn law_footnote_round_trip<S, P>(
    id: String,
    pre: Seq<P>,
    mid: Seq<P>,
    body: Seq<P>,
    post: Seq<P>,
    cat: CatalogModel<S>,
)
    ensures
        render(
            handed_on_events(pre) + seq![Event::FootnoteReference(id)] + handed_on_events(mid) + seq![
                Event::Start(BlockKind::FootnoteDefinition(id)),
            ] + handed_on_events(body) + seq![Event::End(BlockKind::FootnoteDefinition(id))]
                + handed_on_events(post),
            cat,
        ) == Ok::<Seq<Piece<P>>, crate::stream::MalformedEventStream>(
            handed_on(pre) + seq![Piece::Html(reference_html(id@))] + handed_on(mid) + handed_on(post)
                + seq![Piece::Html(section_open()), Piece::Html(item_open(id@))] + handed_on(body) + seq![
                Piece::Html(item_close(id@)),
                Piece::Html(section_close()),
            ],
        ),
{
    let e_ref = seq![Event::<P>::FootnoteReference(id)];
    let e_start = seq![Event::<P>::Start(BlockKind::FootnoteDefinition(id))];
    let e_end = seq![Event::<P>::End(BlockKind::FootnoteDefinition(id))];
    let x1 = handed_on_events(pre);
    let x2 = x1 + e_ref;
    let x3 = x2 + handed_on_events(mid);
    let x4 = x3 + e_start;
    let x5 = x4 + handed_on_events(body);
    let x6 = x5 + e_end;
    let x7 = x6 + handed_on_events(post);
    let m0 = initial::<S, P>();
    lemma_advance_handed_on(m0, pre, cat);
    let m1 = emit_all(m0, handed_on(pre));
    lemma_advance_one(m1, Event::<P>::FootnoteReference(id), cat);
    lemma_advance_concat(m0, x1, e_ref, cat);
    let m2 = emit(m1, Piece::Html(reference_html(id@)));
    lemma_advance_handed_on(m2, mid, cat);
    lemma_advance_concat(m0, x2, handed_on_events(mid), cat);
    let m3 = emit_all(m2, handed_on(mid));
    lemma_advance_one(m3, Event::<P>::Start(BlockKind::FootnoteDefinition(id)), cat);
    lemma_advance_concat(m0, x3, e_start, cat);
    let m4 = RenderModel {
        highlight: m3.highlight,
        footnote: FootnoteModel::Open(id@, Seq::empty()),
        main: m3.main,
        section: m3.section,
    };
    lemma_advance_handed_on(m4, body, cat);
    lemma_advance_concat(m0, x4, handed_on_events(body), cat);
    let m5 = emit_all(m4, handed_on(body));
    lemma_advance_one(m5, Event::<P>::End(BlockKind::FootnoteDefinition(id)), cat);
    lemma_advance_concat(m0, x5, e_end, cat);
    let m6 = RenderModel {
        highlight: m5.highlight,
        footnote: FootnoteModel::Idle,
        main: m5.main,
        section: m5.section + seq![Piece::Html(item_open(id@))] + Seq::empty() + handed_on(body) + seq![
            Piece::Html(item_close(id@)),
        ],
    };
    lemma_advance_handed_on(m6, post, cat);
    lemma_advance_concat(m0, x6, handed_on_events(post), cat);
    let m7 = emit_all(m6, handed_on(post));
    assert(advance(m0, x7, cat) == Some(m7));
    lemma_render_advance(x7, cat);
    assert(Seq::<Piece<P>>::empty() + handed_on(body) == handed_on(body));
    assert(Seq::<Piece<P>>::empty() + handed_on(pre) == handed_on(pre));
    assert(m7.section =~= seq![Piece::Html(item_open(id@))] + handed_on(body) + seq![Piece::Html(item_close(id@))]);
    assert(m7.main =~= handed_on(pre) + seq![Piece::Html(reference_html(id@))] + handed_on(mid) + handed_on(post));
    assert(finish(m7)->Ok_0 =~= handed_on(pre) + seq![Piece::Html(reference_html(id@))] + handed_on(mid) + handed_on(post)
        + seq![Piece::Html(section_open()), Piece::Html(item_open(id@))] + handed_on(body) + seq![
        Piece::Html(item_close(id@)),
        Piece::Html(section_close()),
    ]);
}

/// Two states that write out alike under `pass`: the same code-highlight
/// state, the same open definition, and main output, definition output and
/// footnote section that serialize to the same HTML (the section empty in
/// both or in neither).
pub open spec fn equivalent<S, P>(m1: RenderModel<S, P>, m2: RenderModel<S, P>, pass: spec_fn(P) -> Seq<char>) -> bool {
    &&& m1.highlight == m2.highlight
    &&& html_of(m1.main, pass) == html_of(m2.main, pass)
    &&& html_of(m1.section, pass) == html_of(m2.section, pass)
    &&& (m1.section.len() == 0 <==> m2.section.len() == 0)
    &&& match (m1.footnote, m2.footnote) {
        (FootnoteModel::Idle, FootnoteModel::Idle) => true,
        (FootnoteModel::Open(i1, b1), FootnoteModel::Open(i2, b2)) => i1 == i2 && html_of(b1, pass) == html_of(
            b2,
            pass,
        ),
        _ => false,
    }
}

proof fn lemma_emit_equivalent<S, P>(m1: RenderModel<S, P>, m2: RenderModel<S, P>, p: Piece<P>, pass: spec_fn(P) -> Seq<char>)
    requires
        equivalent(m1, m2, pass),
    ensures
        equivalent(emit(m1, p), emit(m2, p), pass),
{
    lemma_html_of_push(m1.main, p, pass);
    lemma_html_of_push(m2.main, p, pass);
    if let (FootnoteModel::Open(_, b1), FootnoteModel::Open(_, b2)) = (m1.footnote, m2.footnote) {
        lemma_html_of_push(b1, p, pass);
        lemma_html_of_push(b2, p, pass);
    }
}

proof fn lemma_step_equivalent<S, P>(
    m1: RenderModel<S, P>,
    m2: RenderModel<S, P>,
    e: Event<P>,
    cat: CatalogModel<S>,
    pass: spec_fn(P) -> Seq<char>,
)
    requires
        equivalent(m1, m2, pass),
    ensures
        match (step(m1, e, cat), step(m2, e, cat)) {
            (Ok(n1), Ok(n2)) => equivalent(n1, n2, pass),
            (Err(v), Err(w)) => v == w,
            _ => false,
        },
{
    match e {
        Event::Start(BlockKind::CodeBlock(CodeBlockKind::Fenced(token))) => {
            if m1.highlight is NotInCodeBlock {
                if token@.len() > 0 && (cat.resolve)(token@) is Some {
                    let h = HighlightModel::Highlighting((cat.resolve)(token@)->0, Seq::empty());
                    lemma_emit_equivalent(
                        crate::machine::with_highlight(m1, h),
                        crate::machine::with_highlight(m2, h),
                        Piece::Html(fenced_open(token@)),
                        pass,
                    );
                } else {
                    lemma_emit_equivalent(
                        crate::machine::with_highlight(m1, HighlightModel::UnknownSyntax),
                        crate::machine::with_highlight(m2, HighlightModel::UnknownSyntax),
                        Piece::Html(plain_open()),
                        pass,
                    );
                }
            }
        },
        Event::Start(BlockKind::CodeBlock(CodeBlockKind::Indented)) => {},
        Event::Start(BlockKind::FootnoteDefinition(_)) => {},
        Event::End(BlockKind::CodeBlock(_)) => {
            let done1 = crate::machine::with_highlight(m1, HighlightModel::NotInCodeBlock);
            let done2 = crate::machine::with_highlight(m2, HighlightModel::NotInCodeBlock);
            if let HighlightModel::Highlighting(syntax, code) = m1.highlight {
                lemma_emit_equivalent(done1, done2, Piece::Html((cat.markup)(syntax, code) + code_close()), pass);
            }
            lemma_emit_equivalent(done1, done2, Piece::Html(code_close()), pass);
        },
        Event::End(BlockKind::FootnoteDefinition(id)) => {
            if let (FootnoteModel::Open(i1, b1), FootnoteModel::Open(i2, b2)) = (m1.footnote, m2.footnote) {
                let open = seq![Piece::<P>::Html(item_open(id@))];
                let close = seq![Piece::<P>::Html(item_close(id@))];
                lemma_html_of_concat(m1.section, open, pass);
                lemma_html_of_concat(m2.section, open, pass);
                lemma_html_of_concat(m1.section + open, b1, pass);
                lemma_html_of_concat(m2.section + open, b2, pass);
                lemma_html_of_concat(m1.section + open + b1, close, pass);
                lemma_html_of_concat(m2.section + open + b2, close, pass);
            }
        },
        Event::Text(span) => {
            match m1.highlight {
                HighlightModel::Highlighting(_, _) => {},
                HighlightModel::AwaitingFirstLine => {
                    match (cat.sniff)(span@) {
                        Some(found) => {
                            let h = HighlightModel::Highlighting(found.0, span@);
                            lemma_emit_equivalent(
                                crate::machine::with_highlight(m1, h),
                                crate::machine::with_highlight(m2, h),
                                Piece::Html(crate::machine::sniffed_open(found.1)),
                                pass,
                            );
                        },
                        None => {
                            let u1 = crate::machine::with_highlight(m1, HighlightModel::UnknownSyntax);
                            let u2 = crate::machine::with_highlight(m2, HighlightModel::UnknownSyntax);
                            lemma_emit_equivalent(u1, u2, Piece::Html(plain_open()), pass);
                            lemma_emit_equivalent(
                                emit(u1, Piece::Html(plain_open())),
                                emit(u2, Piece::Html(plain_open())),
                                Piece::Text(span@),
                                pass,
                            );
                        },
                    }
                },
                _ => {
                    lemma_emit_equivalent(m1, m2, Piece::Text(span@), pass);
                },
            }
        },
        Event::FootnoteReference(id) => {
            lemma_emit_equivalent(m1, m2, Piece::Html(reference_html(id@)), pass);
        },
        Event::Passthrough(q) => {
            lemma_emit_equivalent(m1, m2, Piece::Passthrough(q), pass);
        },
    }
}

proof fn lemma_advance_equivalent<S, P>(
    m1: RenderModel<S, P>,
    m2: RenderModel<S, P>,
    evs: Seq<Event<P>>,
    cat: CatalogModel<S>,
    pass: spec_fn(P) -> Seq<char>,
)
    requires
        equivalent(m1, m2, pass),
    ensures
        match (advance(m1, evs, cat), advance(m2, evs, cat)) {
            (Some(n1), Some(n2)) => equivalent(n1, n2, pass),
            (None, None) => true,
            _ => false,
        },
    decreases evs.len(),
{
    if evs.len() > 0 {
        lemma_advance_equivalent(m1, m2, evs.drop_last(), cat, pass);
        if let (Some(n1), Some(n2)) = (
            advance(m1, evs.drop_last(), cat),
            advance(m2, evs.drop_last(), cat),
        ) {
            lemma_step_equivalent(n1, n2, evs.last(), cat, pass);
        }
    }
}

proof fn lemma_finish_equivalent<S, P>(m1: RenderModel<S, P>, m2: RenderModel<S, P>, pass: spec_fn(P) -> Seq<char>)
    requires
        equivalent(m1, m2, pass),
    ensures
        match (finish(m1), finish(m2)) {
            (Ok(o1), Ok(o2)) => html_of(o1, pass) == html_of(o2, pass),
            (Err(_), Err(_)) => true,
            _ => false,
        },
{
    let open = seq![Piece::<P>::Html(section_open())];
    let close = seq![Piece::<P>::Html(section_close())];
    lemma_html_of_concat(m1.main, open, pass);
    lemma_html_of_concat(m2.main, open, pass);
    lemma_html_of_concat(m1.main + open, m1.section, pass);
    lemma_html_of_concat(m2.main + open, m2.section, pass);
    lemma_html_of_concat(m1.main + open + m1.section, close, pass);
    lemma_html_of_concat(m2.main + open + m2.section, close, pass);
}

proof fn lemma_emit_split_text<S, P>(m: RenderModel<S, P>, a: Seq<char>, b: Seq<char>, pass: spec_fn(P) -> Seq<char>)
    ensures
        equivalent(emit(emit(m, Piece::Text(a)), Piece::Text(b)), emit(m, Piece::Text(a + b)), pass),
{
    lemma_html_of_split_text::<P>(a, b, pass);
    let two = seq![Piece::<P>::Text(a), Piece::Text(b)];
    let one = seq![Piece::<P>::Text(a + b)];
    assert(m.main.push(Piece::Text(a)).push(Piece::Text(b)) == m.main + two);
    assert(m.main.push(Piece::Text(a + b)) == m.main + one);
    lemma_html_of_concat(m.main, two, pass);
    lemma_html_of_concat(m.main, one, pass);
    if let FootnoteModel::Open(_, buf) = m.footnote {
        assert(buf.push(Piece::Text(a)).push(Piece::Text(b)) == buf + two);
        assert(buf.push(Piece::Text(a + b)) == buf + one);
        lemma_html_of_concat(buf, two, pass);
        lemma_html_of_concat(buf, one, pass);
    }
}

proof fn lemma_text_split<S, P>(
    m: RenderModel<S, P>,
    a: String,
    b: String,
    ab: String,
    cat: CatalogModel<S>,
    pass: spec_fn(P) -> Seq<char>,
)
    requires
        ab@ == a@ + b@,
        m.highlight is AwaitingFirstLine ==> (cat.sniff)(a@) == (cat.sniff)(ab@),
    ensures
        advance(m, seq![Event::<P>::Text(a), Event::Text(b)], cat) matches Some(n1)
            && advance(m, seq![Event::<P>::Text(ab)], cat) matches Some(n2) && equivalent(n1, n2, pass),
{
    lemma_advance_one(m, Event::<P>::Text(a), cat);
    lemma_advance_one(m, Event::<P>::Text(ab), cat);
    lemma_advance_push(m, seq![Event::<P>::Text(a)], Event::<P>::Text(b), cat);
    assert(seq![Event::<P>::Text(a)].push(Event::<P>::Text(b)) == seq![Event::<P>::Text(a), Event::Text(b)]);
    match m.highlight {
        HighlightModel::Highlighting(_, code) => {
            assert(code + a@ + b@ == code + ab@);
        },
        HighlightModel::AwaitingFirstLine => {
            if (cat.sniff)(a@) is None {
                let u = emit(crate::machine::with_highlight(m, HighlightModel::UnknownSyntax), Piece::Html(plain_open()));
                lemma_emit_split_text(u, a@, b@, pass);
            }
        },
        _ => {
            lemma_emit_split_text(m, a@, b@, pass);
        },
    }
}

/// Splitting a chunk of text in two, anywhere in a document, does not change
/// the HTML it renders to: the split document renders exactly when the
/// joined one does, and to the same HTML. Where the chunk is the first line
/// of an indented block, the catalog must recognise the same syntax from
/// either first chunk, since it is asked about that chunk alone.
pub proof fn law_chunking_invariance<S, P>(
    pre: Seq<Event<P>>,
    post: Seq<Event<P>>,
    a: String,
    b: String,
    ab: String,
    cat: CatalogModel<S>,
    pass: spec_fn(P) -> Seq<char>,
)
    requires
        ab@ == a@ + b@,
        advance(initial::<S, P>(), pre, cat) matches Some(mp) && mp.highlight is AwaitingFirstLine ==> (cat.sniff)(a@)
            == (cat.sniff)(ab@),
    ensures
        ({
            let split = render(pre + seq![Event::Text(a), Event::Text(b)] + post, cat);
            let joined = render(pre + seq![Event::Text(ab)] + post, cat);
            &&& split is Ok <==> joined is Ok
            &&& split is Ok ==> html_of(split->Ok_0, pass) == html_of(joined->Ok_0, pass)
        }),
{
    let two = seq![Event::<P>::Text(a), Event::Text(b)];
    let one = seq![Event::<P>::Text(ab)];
    let m0 = initial::<S, P>();
    lemma_advance_concat(m0, pre, two, cat);
    lemma_advance_concat(m0, pre, one, cat);
    lemma_advance_concat(m0, pre + two, post, cat);
    lemma_advance_concat(m0, pre + one, post, cat);
    lemma_render_advance(pre + two + post, cat);
    lemma_render_advance(pre + one + post, cat);
    if let Some(mp) = advance(m0, pre, cat) {
        lemma_text_split(mp, a, b, ab, cat, pass);
        let n1 = advance(mp, two, cat)->Some_0;
        let n2 = advance(mp, one, cat)->Some_0;
        lemma_advance_equivalent(n1, n2, post, cat, pass);
        if let (Some(f1), Some(f2)) = (advance(n1, post, cat), advance(n2, post, cat)) {
            lemma_finish_equivalent(f1, f2, pass);
        }
    }
}

} // verus!
