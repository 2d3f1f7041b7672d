use lightning::feed::{Author, AuthorOptions, Version};

#[test]
fn parses_version() {
    let v1 = "https://jsonfeed.org/version/1";
    assert_eq!(Version::try_from(v1), Ok(Version::V1_0));

    let v1_1 = "https://jsonfeed.org/version/1.1";
    assert_eq!(Version::try_from(v1_1), Ok(Version::V1_1));

    let bad = "whatever";
    assert_eq!(
        Version::try_from(bad),
        Err(format!("Bad JSON Feed `version` field: '{}'", bad))
    );
}

#[test]
fn author_needs_one_part() {
    let none = AuthorOptions { avatar: None, name: None, url: None };
    assert!(Author::from_options(&none).is_err());
}

#[test]
fn author_keeps_given_parts() {
    let opts = AuthorOptions { avatar: None, name: Some("Chris"), url: Some("https://example.com") };
    match Author::from_options(&opts) {
        Ok(Author::NameAndUrl { name, url }) => {
            assert_eq!(name, "Chris");
            assert_eq!(url, "https://example.com");
        }
        _ => panic!("expected a name and a URL"),
    }
    let all = AuthorOptions { avatar: Some("a.png"), name: Some("n"), url: Some("u") };
    assert!(matches!(Author::from_options(&all), Ok(Author::All { .. })));
}
