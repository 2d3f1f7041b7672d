//! Source files and the pages made of them.
use vstd::prelude::*;
use std::path::PathBuf;
use crate::text::chars_of;

verus! {

/// A source file: where it is, and what it holds.
pub struct Source {
    /// Where the file is.
    pub path: PathBuf,
    /// What the file holds.
    pub contents: String,
}

/// The fully rendered contents of a page.
#[derive(Debug)]
pub struct PostProcessed(String);

impl View for PostProcessed {
    type V = Seq<char>;

    closed spec fn view(&self) -> Seq<char> {
        self.0@
    }
}

impl PostProcessed {
    /// The contents as a page, with nothing substituted yet.
    pub fn new(html: String) -> (r: PostProcessed)
        ensures
            r@ == html@,
    {
        PostProcessed(html)
    }

    /// The page's HTML.
    pub fn as_str(&self) -> (r: &str)
        ensures
            r@ == self@,
    {
        self.0.as_str()
    }
}

/// Whitespace as the POSIX `[[:space:]]` class has it.
pub open spec fn is_space(c: char) -> bool {
    c == ' ' || c == '\t' || c == '\n' || c == '\r' || c == '\x0B' || c == '\x0C'
}

/// The number of whitespace characters at the start of `s[from..]`.
pub open spec fn leading_space(s: Seq<char>, from: int) -> int
    decreases s.len() - from,
{
    if 0 <= from < s.len() && is_space(s[from]) {
        leading_space(s, from + 1)
    } else {
        from
    }
}

/// Whether `s` holds the delimiter line `---` followed by a newline at `k`.
pub open spec fn delimiter_at(s: Seq<char>, k: int) -> bool {
    0 <= k && k + 4 <= s.len() && s.subrange(k, k + 4) == seq!['-', '-', '-', '\n']
}

/// The first `k >= from` at which a delimiter line stands, or `s.len()`.
pub open spec fn next_delimiter(s: Seq<char>, from: int) -> int
    decreases s.len() - from,
{
    if from < 0 || from + 4 > s.len() {
        s.len() as int
    } else if delimiter_at(s, from) {
        from
    } else {
        next_delimiter(s, from + 1)
    }
}

/// The header and body of a page source: past leading whitespace, a line
/// `---`; the header runs from that line's newline up to the next line
/// `---`, and the body is everything after it. None if either line is missing.
pub open spec fn components_of(s: Seq<char>) -> Option<(Seq<char>, Seq<char>)> {
    let w = leading_space(s, 0);
    let k = next_delimiter(s, w + 4);
    if delimiter_at(s, w) && k < s.len() {
        Some((s.subrange(w + 3, k), s.subrange(k + 4, s.len() as int)))
    } else {
        None
    }
}

/// A page source split into its metadata header and its Markdown body.
pub struct Components<'c> {
    pub header: &'c str,
    pub body: &'c str,
}

fn delimiter_here(cs: &Vec<char>, k: usize) -> (r: bool)
    ensures
        r == delimiter_at(cs@, k as int),
{
    if k < cs.len() && cs.len() - k >= 4 {
        let r = cs[k] == '-' && cs[k + 1] == '-' && cs[k + 2] == '-' && cs[k + 3] == '\n';
        assert(r == (cs@.subrange(k as int, k + 4) =~= seq!['-', '-', '-', '\n']));
        r
    } else {
        false
    }
}

impl<'c> Components<'c> {
    /// Splits `source` into header and body.
    pub fn try_from(source: &'c str) -> (r: Result<Components<'c>, String>)
        ensures
            match components_of(source@) {
                Some((header, body)) => r matches Ok(c) && c.header@ == header && c.body@ == body,
                None => r is Err,
            },
    {
        let cs = chars_of(source);
        let n = cs.len();
        let mut w: usize = 0;
        while w < n && (cs[w] == ' ' || cs[w] == '\t' || cs[w] == '\n' || cs[w] == '\r' || cs[w] == '\x0B'
            || cs[w] == '\x0C')
            invariant
                cs@ == source@,
                n == cs@.len(),
                w <= n,
                leading_space(cs@, 0) == leading_space(cs@, w as int),
            decreases n - w,
        {
            w = w + 1;
        }
        if !delimiter_here(&cs, w) {
            return Err(String::from_str("invalid/missing YAML header"));
        }
        let mut k: usize = w + 4;
        while k < n && !delimiter_here(&cs, k)
            invariant
                cs@ == source@,
                n == cs@.len(),
                w + 4 <= k <= n,
                next_delimiter(cs@, w + 4) == next_delimiter(cs@, k as int),
            decreases n - k,
        {
            k = k + 1;
        }
        if k >= n {
            return Err(String::from_str("invalid/missing YAML header"));
        }
        Ok(Components { header: source.substring_char(w + 3, k), body: source.substring_char(k + 4, n) })
    }
}

} // verus!
