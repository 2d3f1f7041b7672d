use lightning::catalog::{code_lines, Catalog};
use lightning::event::{BlockKind, CodeBlockKind, Event, Output};
use lightning::markdown::{to_events, to_md_events, MdEventKind};
use pulldown_cmark::{Event as MdEvent, Tag, TagEnd};

#[test]
fn code_is_cut_after_each_newline() {
    assert_eq!(code_lines("a\nbc\nd"), vec!["a\n", "bc\n", "d"]);
    assert_eq!(code_lines("x\n"), vec!["x\n"]);
    assert_eq!(code_lines("\n\n"), vec!["\n", "\n"]);
    assert!(code_lines("").is_empty());
}

#[test]
fn footnote_ends_get_their_label() {
    let md = vec![
        MdEvent::Start(Tag::FootnoteDefinition("note".into())),
        MdEvent::Text("body".into()),
        MdEvent::End(TagEnd::FootnoteDefinition),
        MdEvent::End(TagEnd::FootnoteDefinition),
        MdEvent::SoftBreak,
    ];
    let kinds = vec![
        MdEventKind::FootnoteStart,
        MdEventKind::Text,
        MdEventKind::FootnoteEnd,
        MdEventKind::FootnoteEnd,
        MdEventKind::Other,
    ];
    let labels: Vec<String> = vec!["note".into(), "body".into(), String::new(), String::new(), String::new()];
    let events = to_events(md, &kinds, &labels);
    assert_eq!(events.len(), 5);
    match &events[0] {
        Event::Start(BlockKind::FootnoteDefinition(id)) => assert_eq!(id, "note"),
        _ => panic!("expected a definition start"),
    }
    match &events[1] {
        Event::Text(t) => assert_eq!(t, "body"),
        _ => panic!("expected text"),
    }
    match &events[2] {
        Event::End(BlockKind::FootnoteDefinition(id)) => assert_eq!(id, "note"),
        _ => panic!("expected a definition end"),
    }
    match &events[3] {
        Event::End(BlockKind::FootnoteDefinition(id)) => assert_eq!(id, ""),
        _ => panic!("expected a definition end"),
    }
    assert!(matches!(&events[4], Event::Passthrough(MdEvent::SoftBreak)));
}

#[test]
fn code_block_events_are_read() {
    let md = vec![
        MdEvent::Start(Tag::CodeBlock(pulldown_cmark::CodeBlockKind::Fenced("rust".into()))),
        MdEvent::End(TagEnd::CodeBlock),
        MdEvent::Start(Tag::CodeBlock(pulldown_cmark::CodeBlockKind::Indented)),
        MdEvent::FootnoteReference("r".into()),
    ];
    let kinds = vec![
        MdEventKind::FencedCodeStart,
        MdEventKind::CodeEnd,
        MdEventKind::IndentedCodeStart,
        MdEventKind::FootnoteReference,
    ];
    let labels: Vec<String> = vec!["rust".into(), String::new(), String::new(), "r".into()];
    let events = to_events(md, &kinds, &labels);
    assert!(matches!(&events[0], Event::Start(BlockKind::CodeBlock(CodeBlockKind::Fenced(t))) if t == "rust"));
    assert!(matches!(&events[1], Event::End(BlockKind::CodeBlock(_))));
    assert!(matches!(&events[2], Event::Start(BlockKind::CodeBlock(CodeBlockKind::Indented))));
    assert!(matches!(&events[3], Event::FootnoteReference(r) if r == "r"));
}

#[test]
fn output_is_written_back() {
    let out = vec![
        Output::Html("<b>".to_string()),
        Output::Text("a<b".to_string()),
        Output::Passthrough(MdEvent::HardBreak),
    ];
    let md = to_md_events(out);
    assert_eq!(md, vec![MdEvent::Html("<b>".into()), MdEvent::Text("a<b".into()), MdEvent::HardBreak]);
}

#[test]
fn bundled_catalog_answers() {
    let catalog = Catalog::bundled();
    let rust = catalog.resolve("rust").expect("rust is bundled");
    assert_eq!(catalog.name_of(&rust), "Rust");
    assert!(catalog.resolve("madeup").is_none());
    let bash = catalog.sniff("#!/bin/bash\n").expect("a shebang is recognised");
    assert!(catalog.name_of(&bash).contains("bash"));
    assert!(catalog.sniff("just words\n").is_none());
    let markup = catalog.highlight(&rust, "fn f() {}\n");
    assert!(markup.starts_with("<span class=\"source rust\">"), "{}", markup);
    assert_ne!(markup, "fn f() {}\n");
    assert_eq!(catalog.highlight(&rust, "let a = 1;\nlet b = 2;\n"), catalog.highlight(&rust, "let a = 1;\nlet b = 2;\n"));
}
