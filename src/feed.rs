//! Types of a JSON Feed (version 1.1, which reads version 1 too).
use vstd::prelude::*;
use crate::text::concat;

verus! {

/// A JSON Feed version.
#[derive(PartialEq, Eq, Structural, Debug, Clone, Copy)]
pub enum Version {
    /// The feed is version 1.
    V1_0,
    /// The feed is version 1.1.
    V1_1,
}

/// The version that a feed's `version` field names, or the error message for
/// a field that names none.
pub open spec fn version_of(s: Seq<char>) -> Result<Version, Seq<char>> {
    if s == "https://jsonfeed.org/version/1"@ {
        Ok(Version::V1_0)
    } else if s == "https://jsonfeed.org/version/1.1"@ {
        Ok(Version::V1_1)
    } else {
        Err("Bad JSON Feed `version` field: '"@ + s + "'"@)
    }
}

impl Version {
    /// Reads a feed's `version` field.
    pub fn try_from(s: &str) -> (r: Result<Version, String>)
        ensures
            match version_of(s@) {
                Ok(v) => r == Ok::<Version, String>(v),
                Err(msg) => r is Err && r->Err_0@ == msg,
            },
    {
        let given = String::from_str(s);
        if given == String::from_str("https://jsonfeed.org/version/1") {
            Ok(Version::V1_0)
        } else if given == String::from_str("https://jsonfeed.org/version/1.1") {
            Ok(Version::V1_1)
        } else {
            let mut msg = concat("Bad JSON Feed `version` field: '", s);
            msg.append("'");
            Err(msg)
        }
    }
}

/// The author of a feed or of an item: at least one of an avatar, a name and
/// a URL.
pub enum Author {
    AvatarOnly { avatar: String },
    NameOnly { name: String },
    UrlOnly { url: String },
    AvatarAndName { avatar: String, name: String },
    AvatarAndUrl { avatar: String, url: String },
    NameAndUrl { name: String, url: String },
    All { avatar: String, name: String, url: String },
}

/// What an author is built from; any of the three may be missing.
pub struct AuthorOptions<'a, 'n, 'u> {
    pub avatar: Option<&'a str>,
    pub name: Option<&'n str>,
    pub url: Option<&'u str>,
}

/// The avatar, name and URL that an author holds.
pub open spec fn author_parts(a: Author) -> (Option<Seq<char>>, Option<Seq<char>>, Option<Seq<char>>) {
    match a {
        Author::AvatarOnly { avatar } => (Some(avatar@), None, None),
        Author::NameOnly { name } => (None, Some(name@), None),
        Author::UrlOnly { url } => (None, None, Some(url@)),
        Author::AvatarAndName { avatar, name } => (Some(avatar@), Some(name@), None),
        Author::AvatarAndUrl { avatar, url } => (Some(avatar@), None, Some(url@)),
        Author::NameAndUrl { name, url } => (None, Some(name@), Some(url@)),
        Author::All { avatar, name, url } => (Some(avatar@), Some(name@), Some(url@)),
    }
}

pub open spec fn opt_view(o: Option<&str>) -> Option<Seq<char>> {
    match o {
        Some(s) => Some(s@),
        None => None,
    }
}

impl Author {
    /// The author with exactly the parts that `options` gives; an error if it
    /// gives none.
    pub fn from_options(options: &AuthorOptions) -> (r: Result<Author, String>)
        ensures
            (options.avatar is None && options.name is None && options.url is None) <==> r is Err,
            r is Ok ==> author_parts(r->Ok_0) == (opt_view(options.avatar), opt_view(options.name), opt_view(options.url)),
    {
        match (options.avatar, options.name, options.url) {
            (None, None, None) => Err(
                String::from_str("Cannot build `author` without at least one of name, url, and avatar"),
            ),
            (None, None, Some(u)) => Ok(Author::UrlOnly { url: String::from_str(u) }),
            (None, Some(n), None) => Ok(Author::NameOnly { name: String::from_str(n) }),
            (None, Some(n), Some(u)) => Ok(Author::NameAndUrl { name: String::from_str(n), url: String::from_str(u) }),
            (Some(a), None, None) => Ok(Author::AvatarOnly { avatar: String::from_str(a) }),
            (Some(a), None, Some(u)) => Ok(Author::AvatarAndUrl { avatar: String::from_str(a), url: String::from_str(u) }),
            (Some(a), Some(n), None) => Ok(Author::AvatarAndName { avatar: String::from_str(a), name: String::from_str(n) }),
            (Some(a), Some(n), Some(u)) => Ok(
                Author::All { avatar: String::from_str(a), name: String::from_str(n), url: String::from_str(u) },
            ),
        }
    }
}

} // verus!
