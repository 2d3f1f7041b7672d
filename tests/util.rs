use lightning::metadata::{is_initial_delimiter, is_terminal_delimiter, split_lines};
use lightning::page::{Components, PostProcessed};
use lightning::validated_types::Url;
use lightning::yaml_util::{bad_value, key_of_type, required_key, Required};

#[test]
fn url_keeps_its_text() {
    let url = Url::new("https://lightning.rs").unwrap();
    assert_eq!(url.value(), "https://lightning.rs");
}

#[test]
fn yaml_messages() {
    assert_eq!(required_key("title", &vec![1, 2]), "Required key `title` missing from [1, 2]");
    assert_eq!(
        key_of_type("slug", Required::Yes, "x", "string"),
        "Required key `slug` in \"x\" must be a string"
    );
    assert_eq!(
        key_of_type("slug", Required::No, 3, "hash"),
        "Optional key `slug` in 3 must be a hash"
    );
    assert_eq!(bad_value(7, "limit", &"ctx"), "Invalid value 7 for key `limit` in hash \"ctx\"");
    assert_eq!(Required::Yes.label(), "Required");
}

#[test]
fn lines_split_like_std() {
    for s in ["", "\n", "a", "a\n", "a\r\nb", "a\n\nb\n", "x\r", "\r\n\r\n", "one\ntwo\r\nthree"] {
        let expected: Vec<String> = s.lines().map(|l| l.to_string()).collect();
        assert_eq!(split_lines(s), expected, "input {:?}", s);
    }
}

#[test]
fn delimiters() {
    assert!(is_initial_delimiter("---"));
    assert!(!is_initial_delimiter("..."));
    assert!(!is_initial_delimiter("----"));
    assert!(is_terminal_delimiter("---"));
    assert!(is_terminal_delimiter("..."));
    assert!(!is_terminal_delimiter("...."));
}

#[test]
fn page_components_split() {
    let c = Components::try_from("---\ntitle: x\n---\nbody text").unwrap();
    assert_eq!(c.header, "\ntitle: x\n");
    assert_eq!(c.body, "body text");
    let c = Components::try_from(" \n\t---\nA\n---\n---\nrest").unwrap();
    assert_eq!(c.header, "\nA\n");
    assert_eq!(c.body, "---\nrest");
    let c = Components::try_from("---\n---\n").unwrap();
    assert_eq!(c.header, "\n");
    assert_eq!(c.body, "");
    assert!(Components::try_from("no header").is_err());
    assert!(Components::try_from("---\nunclosed\n").is_err());
    assert!(Components::try_from("x---\na\n---\n").is_err());
}

#[test]
fn post_processed_keeps_html() {
    assert_eq!(PostProcessed::new("<p>x</p>".to_string()).as_str(), "<p>x</p>");
}
