use lightning::event::{BlockKind, CodeBlockKind, Event, Output};
use lightning::machine::{fn_backref_name, fn_ref_name, Violation};
use lightning::markdown::render_markdown;
use lightning::stream::{render_events, MalformedEventStream};
use lightning::text::escape_attribute;
use lightning::catalog::Catalog;

fn catalog() -> Catalog {
    Catalog::bundled()
}

fn html(src: &str) -> String {
    render_markdown(src, &catalog()).unwrap().into_string()
}

fn serialize(out: &[Output<()>]) -> String {
    let mut s = String::new();
    for o in out {
        match o {
            Output::Html(h) => s.push_str(h),
            Output::Text(t) => {
                for c in t.chars() {
                    match c {
                        '&' => s.push_str("&amp;"),
                        '<' => s.push_str("&lt;"),
                        '>' => s.push_str("&gt;"),
                        c => s.push(c),
                    }
                }
            }
            Output::Passthrough(()) => s.push_str("<!---->"),
        }
    }
    s
}

fn fenced(token: &str) -> Event<()> {
    Event::Start(BlockKind::CodeBlock(CodeBlockKind::Fenced(token.to_string())))
}

fn code_end() -> Event<()> {
    Event::End(BlockKind::CodeBlock(CodeBlockKind::Indented))
}

fn text(s: &str) -> Event<()> {
    Event::Text(s.to_string())
}

fn violation(events: Vec<Event<()>>) -> MalformedEventStream {
    match render_events(events, &catalog()) {
        Err(e) => e,
        Ok(_) => panic!("expected a malformed stream"),
    }
}

#[test]
fn fenced_rust_block_is_classed() {
    let out = html("```rust\nfn f(){}\n```");
    assert!(out.starts_with("<pre><code class=\"rust\">"), "{}", out);
    assert!(out.ends_with("</code></pre>"), "{}", out);
    assert!(out.contains("<span class=\""), "{}", out);
}

#[test]
fn fenced_unknown_token_is_plain() {
    assert_eq!(html("```madeup\nfoo\n```"), "<pre><code>foo\n</code></pre>");
}

#[test]
fn unknown_fence_escapes_body() {
    assert_eq!(
        html("```madeup\n<a href=\"x\"> & b\n```"),
        "<pre><code>&lt;a href=\"x\"&gt; &amp; b\n</code></pre>"
    );
}

#[test]
fn empty_fence_token_is_plain() {
    assert_eq!(html("```\nx\n```"), "<pre><code>x\n</code></pre>");
}

#[test]
fn footnote_is_promoted() {
    let out = html("Hi[^a]\n\n[^a]: Bye");
    let marker = out.find("<sup class=\"footnote-ref\"><a href=\"#fn-a\" id=\"fnref-a\"></a></sup>").unwrap();
    let section = out.find("<section class=\"footnotes\">").unwrap();
    assert!(marker < section, "{}", out);
    let item = out.find("<li id=\"fn-a\" class=\"footnote-item\">").unwrap();
    let bye = out.find("Bye").unwrap();
    let close = out.find("</li>").unwrap();
    assert!(section < item && item < bye && bye < close, "{}", out);
    assert!(out.contains("<a href=\"#fnref-a\" class=\"footnote-backref\">\u{21a9}\u{fe0e}</a></li>"), "{}", out);
    assert!(out.ends_with("</ul></section>"), "{}", out);
}

#[test]
fn footnote_round_trip_counts() {
    let out = html("Hi[^a]\n\n[^a]: Bye");
    assert_eq!(out.matches("<li id=\"fn-a\"").count(), 1);
    assert_eq!(out.matches("id=\"fnref-a\"").count(), 1);
    assert_eq!(out.matches("href=\"#fn-a\"").count(), 1);
    assert_eq!(out.matches("href=\"#fnref-a\"").count(), 1);
}

#[test]
fn no_footnotes_no_section() {
    let out = html("Just *text* here.\n\n```madeup\ncode\n```\n");
    assert!(!out.contains("footnotes"), "{}", out);
}

#[test]
fn code_end_without_start_is_malformed() {
    let e = violation(vec![text("x"), code_end()]);
    assert_eq!(e, MalformedEventStream { position: 1, violation: Violation::CodeBlockEndOutsideCodeBlock });
}

#[test]
fn each_violation() {
    assert_eq!(violation(vec![fenced("x"), fenced("y")]).violation, Violation::CodeBlockInCodeBlock);
    assert_eq!(
        violation(vec![Event::Start(BlockKind::CodeBlock(CodeBlockKind::Indented)), fenced("y")]).violation,
        Violation::CodeBlockInCodeBlock
    );
    let def = |id: &str| Event::Start(BlockKind::FootnoteDefinition(id.to_string()));
    let end = |id: &str| Event::End(BlockKind::FootnoteDefinition(id.to_string()));
    assert_eq!(violation(vec![def("a"), def("b")]).violation, Violation::NestedFootnoteDefinition);
    assert_eq!(violation(vec![end("a")]).violation, Violation::FootnoteEndOutsideDefinition);
    assert_eq!(
        violation(vec![def("a"), end("b")]),
        MalformedEventStream { position: 1, violation: Violation::MismatchedFootnoteEnd }
    );
    assert_eq!(
        violation(vec![fenced("x"), text("a")]),
        MalformedEventStream { position: 2, violation: Violation::UnclosedCodeBlock }
    );
    assert_eq!(
        violation(vec![def("a"), text("a")]),
        MalformedEventStream { position: 2, violation: Violation::UnclosedFootnoteDefinition }
    );
}

#[test]
fn chunking_does_not_change_output() {
    for token in ["rust", "madeup"] {
        let split = render_events(vec![fenced(token), text("fn f("), text("){}\n"), text("let x = 1;\n"), code_end()], &catalog()).unwrap();
        let whole = render_events(vec![fenced(token), text("fn f(){}\nlet x = 1;\n"), code_end()], &catalog()).unwrap();
        assert_eq!(serialize(&split), serialize(&whole));
    }
    let split = render_events(vec![text("a < "), text("b")], &catalog()).unwrap();
    let whole = render_events(vec![text("a < b")], &catalog()).unwrap();
    assert_eq!(serialize(&split), serialize(&whole));
    assert_eq!(serialize(&whole), "a &lt; b");
}

#[test]
fn indented_block_is_sniffed() {
    let out = html("Intro\n\n    #!/bin/bash\n    echo hi\n");
    assert!(out.contains("<pre lang=\""), "{}", out);
    assert!(out.contains("</code></pre>"), "{}", out);
}

#[test]
fn indented_block_unrecognised_is_plain() {
    let out = html("Intro\n\n    just <some> words\n");
    assert!(out.contains("<pre><code>just &lt;some&gt; words\n</code></pre>"), "{}", out);
}

#[test]
fn empty_indented_block() {
    let out = render_events(vec![Event::Start(BlockKind::CodeBlock(CodeBlockKind::Indented)), code_end()], &catalog()).unwrap();
    assert_eq!(serialize(&out), "</code></pre>");
}

#[test]
fn footnote_section_follows_close_order() {
    let def = |id: &str| Event::Start(BlockKind::FootnoteDefinition(id.to_string()));
    let end = |id: &str| Event::End(BlockKind::FootnoteDefinition(id.to_string()));
    let events = vec![
        Event::FootnoteReference("a".to_string()),
        Event::FootnoteReference("b".to_string()),
        def("b"),
        text("second"),
        end("b"),
        def("a"),
        text("first"),
        end("a"),
        Event::Passthrough(()),
    ];
    let out = serialize(&render_events(events, &catalog()).unwrap());
    let b = out.find("<li id=\"fn-b\"").unwrap();
    let a = out.find("<li id=\"fn-a\"").unwrap();
    assert!(b < a, "{}", out);
    assert!(out.find("<!---->").unwrap() < out.find("<hr").unwrap(), "{}", out);
    assert_eq!(out.matches("<section").count(), 1);
}

#[test]
fn reference_inside_definition_stays_in_it() {
    let events = vec![
        Event::Start(BlockKind::FootnoteDefinition("a".to_string())),
        Event::FootnoteReference("b".to_string()),
        Event::End(BlockKind::FootnoteDefinition("a".to_string())),
    ];
    let out = serialize(&render_events(events, &catalog()).unwrap());
    assert!(out.starts_with("<hr class=\"footnotes-sep\"/>"), "{}", out);
    assert!(out.contains("<li id=\"fn-a\" class=\"footnote-item\"><sup class=\"footnote-ref\"><a href=\"#fn-b\""), "{}", out);
}

#[test]
fn attribute_escaping() {
    assert_eq!(escape_attribute("a\"<b>&'c"), "a&quot;&lt;b&gt;&amp;&#39;c");
    assert_eq!(escape_attribute("rust"), "rust");
    assert_eq!(fn_ref_name("x"), "fn-x");
    assert_eq!(fn_backref_name("x"), "fnref-x");
}

#[test]
fn footnote_ids_are_escaped() {
    let events = vec![Event::FootnoteReference("a\"b".to_string())];
    let out = serialize(&render_events(events, &catalog()).unwrap());
    assert_eq!(out, "<sup class=\"footnote-ref\"><a href=\"#fn-a&quot;b\" id=\"fnref-a&quot;b\"></a></sup>");
}

#[test]
fn highlighted_code_is_escaped() {
    let out = html("```rust\nlet x = a < b && c;\n```");
    assert!(out.starts_with("<pre><code class=\"rust\">"), "{}", out);
    assert!(!out.contains("a < b"), "{}", out);
    assert!(out.contains("&lt;"), "{}", out);
    assert!(out.contains("&amp;") && !out.contains("&&"), "{}", out);
}

#[test]
fn plain_markdown_passes_through() {
    let out = html("Text with a [link](https://example.com) and `code`.\n");
    assert_eq!(out, "<p>Text with a <a href=\"https://example.com\">link</a> and <code>code</code>.</p>\n");
}
