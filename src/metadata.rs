//! Items (pages, posts) carry a metadata block at their top: a `---` line,
//! the metadata, and a closing `---` or `...` line.
use vstd::prelude::*;
use crate::text::{chars_of, push_str, string_of, string_views};

verus! {

/// The fallbacks used where an item's metadata leaves something out.
pub struct Defaults {
    pub slug: String,
}

/// A metadata value of an item beyond its slug and title.
pub enum OtherMetadatum {
    SingleLineString(String),
    MultiLineString(String),
    List(Vec<String>),
}

/// Metadata of an item beyond its slug and title.
pub enum ExtraMetadata {
    /// A value consisting of a string with no newlines in it.
    SingleLineString(String),
    /// A value spanning several lines.
    MultiLineString(String),
    List(Vec<String>),
    Slug(String),
}

/// A line with its carriage return dropped, if it ends in one.
pub open spec fn strip_cr(line: Seq<char>) -> Seq<char> {
    if line.len() > 0 && line.last() == '\r' {
        line.drop_last()
    } else {
        line
    }
}

/// The lines of `s` after the partial line `cur`: split at `\n`, each line
/// without its `\n` or `\r\n` ending, the final ending optional.
pub open spec fn lines_after(s: Seq<char>, cur: Seq<char>) -> Seq<Seq<char>>
    decreases s.len(),
{
    if s.len() == 0 {
        if cur.len() == 0 {
            Seq::empty()
        } else {
            seq![cur]
        }
    } else if s[0] == '\n' {
        seq![strip_cr(cur)] + lines_after(s.drop_first(), Seq::empty())
    } else {
        lines_after(s.drop_first(), cur.push(s[0]))
    }
}

/// The lines of `s`, as `str::lines` yields them.
pub open spec fn lines_of(s: Seq<char>) -> Seq<Seq<char>> {
    lines_after(s, Seq::empty())
}

/// The lines of `s`, as `str::lines` yields them.
pub fn split_lines(s: &str) -> (r: Vec<String>)
    ensures
        string_views(r@) == lines_of(s@),
{
    let cs = chars_of(s);
    let mut out: Vec<String> = Vec::new();
    let mut start: usize = 0;
    let mut i: usize = 0;
    assert(s@.skip(0) == s@);
    assert(s@.subrange(0, 0) == Seq::<char>::empty());
    assert(string_views(out@) == Seq::<Seq<char>>::empty());
    assert(Seq::<Seq<char>>::empty() + lines_of(s@) == lines_of(s@));
    while i < cs.len()
        invariant
            cs@ == s@,
            start <= i <= cs@.len(),
            lines_of(s@) == string_views(out@) + lines_after(s@.skip(i as int), s@.subrange(start as int, i as int)),
        decreases cs@.len() - i,
    {
        let ghost rest = s@.skip(i as int);
        let ghost cur = s@.subrange(start as int, i as int);
        assert(rest[0] == cs@[i as int]);
        assert(rest.drop_first() == s@.skip(i + 1));
        if cs[i] == '\n' {
            let end = if i > start && cs[i - 1] == '\r' {
                i - 1
            } else {
                i
            };
            let line = string_of(&cs, start, end);
            assert(line@ == strip_cr(cur));
            let ghost before = out@;
            out.push(line);
            assert(string_views(out@) == string_views(before) + seq![strip_cr(cur)]);
            assert(s@.subrange(i + 1, i + 1) == Seq::<char>::empty());
            start = i + 1;
        } else {
            assert(s@.subrange(start as int, i + 1) == cur.push(cs@[i as int]));
        }
        i = i + 1;
    }
    assert(s@.skip(i as int).len() == 0);
    if start < cs.len() {
        let ghost before = out@;
        let line = string_of(&cs, start, cs.len());
        out.push(line);
        assert(string_views(out@) == string_views(before) + seq![s@.subrange(start as int, i as int)]);
    } else {
        assert(s@.subrange(start as int, i as int).len() == 0);
        assert(string_views(out@) + Seq::<Seq<char>>::empty() == string_views(out@));
    }
    out
}

pub open spec fn initial_delimiter(line: Seq<char>) -> bool {
    line == "---"@
}

pub open spec fn terminal_delimiter(line: Seq<char>) -> bool {
    line == "---"@ || line == "..."@
}

/// The number of empty lines at the start of `ls`.
pub open spec fn blank_prefix(ls: Seq<Seq<char>>) -> nat
    decreases ls.len(),
{
    if ls.len() > 0 && ls[0].len() == 0 {
        1 + blank_prefix(ls.drop_first())
    } else {
        0
    }
}

/// The index of the first closing delimiter in `ls`, or its length if none.
pub open spec fn terminal_index(ls: Seq<Seq<char>>) -> nat
    decreases ls.len(),
{
    if ls.len() == 0 {
        0
    } else if terminal_delimiter(ls[0]) {
        0
    } else {
        1 + terminal_index(ls.drop_first())
    }
}

/// The lines joined with `\n` between them.
pub open spec fn join_lines(ls: Seq<Seq<char>>) -> Seq<char>
    decreases ls.len(),
{
    if ls.len() == 0 {
        Seq::empty()
    } else if ls.len() == 1 {
        ls[0]
    } else {
        join_lines(ls.drop_last()) + seq!['\n'] + ls.last()
    }
}

/// The metadata block of `content`: past any empty lines, a line `---`, then
/// the lines up to the first `---` or `...` line, joined with `\n`; none if
/// either delimiter is missing.
pub open spec fn metadata_of(content: Seq<char>) -> Option<Seq<char>> {
    let ls = lines_of(content);
    let rest = ls.skip(blank_prefix(ls) as int);
    let body = rest.skip(1);
    if rest.len() > 0 && initial_delimiter(rest[0]) && terminal_index(body) < body.len() {
        Some(join_lines(body.take(terminal_index(body) as int)))
    } else {
        None
    }
}

fn same(a: &str, b: &str) -> (r: bool)
    ensures
        r == (a@ == b@),
{
    String::from_str(a) == String::from_str(b)
}

/// Whether `line` opens a metadata block.
pub fn is_initial_delimiter(line: &str) -> (r: bool)
    ensures
        r == initial_delimiter(line@),
{
    same(line, "---")
}

/// Whether `line` closes a metadata block.
pub fn is_terminal_delimiter(line: &str) -> (r: bool)
    ensures
        r == terminal_delimiter(line@),
{
    same(line, "---") || same(line, "...")
}

proof fn lemma_blank_prefix_exact(ls: Seq<Seq<char>>, k: int)
    requires
        0 <= k <= ls.len(),
        forall|j: int| 0 <= j < k ==> #[trigger] ls[j].len() == 0,
        k < ls.len() ==> ls[k].len() > 0,
    ensures
        blank_prefix(ls) == k,
    decreases k,
{
    if k > 0 {
        assert forall|j: int| 0 <= j < k - 1 implies #[trigger] ls.drop_first()[j].len() == 0 by {
            assert(ls.drop_first()[j] == ls[j + 1]);
        }
        lemma_blank_prefix_exact(ls.drop_first(), k - 1);
    }
}

proof fn lemma_terminal_index_exact(ls: Seq<Seq<char>>, k: int)
    requires
        0 <= k <= ls.len(),
        forall|j: int| 0 <= j < k ==> !terminal_delimiter(#[trigger] ls[j]),
        k < ls.len() ==> terminal_delimiter(ls[k]),
    ensures
        terminal_index(ls) == k,
    decreases k,
{
    if k > 0 {
        assert forall|j: int| 0 <= j < k - 1 implies !terminal_delimiter(#[trigger] ls.drop_first()[j]) by {
            assert(ls.drop_first()[j] == ls[j + 1]);
            assert(!terminal_delimiter(ls[j + 1]));
        }
        lemma_terminal_index_exact(ls.drop_first(), k - 1);
    }
}

/// The metadata block at the top of `content`, if it has one.
pub fn extract_metadata(content: &str) -> (r: Option<String>)
    ensures
        match metadata_of(content@) {
            Some(m) => r is Some && r->Some_0@ == m,
            None => r is None,
        },
{
    let ls = split_lines(content);
    let ghost lv = lines_of(content@);
    assert(string_views(ls@) == lv);
    assert(ls@.len() == lv.len());
    assert(forall|j: int| 0 <= j < ls@.len() ==> #[trigger] ls@[j]@ == lv[j]);
    let mut k: usize = 0;
    while k < ls.len() && ls[k].as_str().is_empty()
        invariant
            k <= ls@.len(),
            ls@.len() == lv.len(),
            forall|j: int| 0 <= j < ls@.len() ==> #[trigger] ls@[j]@ == lv[j],
            forall|j: int| 0 <= j < k ==> #[trigger] lv[j].len() == 0,
        decreases ls@.len() - k,
    {
        k = k + 1;
    }
    proof {
        lemma_blank_prefix_exact(lv, k as int);
    }
    let ghost rest = lv.skip(k as int);
    let ghost body = rest.skip(1);
    if k >= ls.len() || !is_initial_delimiter(ls[k].as_str()) {
        return None;
    }
    assert(rest[0] == lv[k as int]);
    let mut j: usize = k + 1;
    while j < ls.len() && !is_terminal_delimiter(ls[j].as_str())
        invariant
            k + 1 <= j <= ls@.len(),
            ls@.len() == lv.len(),
            forall|i: int| 0 <= i < ls@.len() ==> #[trigger] ls@[i]@ == lv[i],
            body == lv.skip(k + 1),
            forall|i: int| 0 <= i < j - (k + 1) ==> !terminal_delimiter(#[trigger] body[i]),
        decreases ls@.len() - j,
    {
        assert(body[j - (k + 1)] == lv[j as int]);
        j = j + 1;
    }
    let t = j - (k + 1);
    proof {
        if j < ls@.len() {
            assert(body[t as int] == lv[j as int]);
        }
        lemma_terminal_index_exact(body, t as int);
    }
    if j >= ls.len() {
        return None;
    }
    let mut m = String::new();
    let mut i: usize = k + 1;
    while i < j
        invariant
            k + 1 <= i <= j < ls@.len(),
            ls@.len() == lv.len(),
            forall|x: int| 0 <= x < ls@.len() ==> #[trigger] ls@[x]@ == lv[x],
            body == lv.skip(k + 1),
            m@ == join_lines(body.take(i - (k + 1))),
        decreases j - i,
    {
        let ghost prev = body.take(i - (k + 1));
        let ghost next = body.take(i + 1 - (k + 1));
        assert(next.drop_last() == prev);
        assert(next.last() == lv[i as int]);
        if i > k + 1 {
            m.push('\n');
        } else {
            assert(next.len() == 1);
            assert(m@ == Seq::<char>::empty());
        }
        push_str(&mut m, ls[i].as_str());
        i = i + 1;
    }
    Some(m)
}

} // verus!
