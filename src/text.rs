//! Character-level string helpers and HTML escaping.
use vstd::prelude::*;

verus! {

/// Relies on `String::push`: the character is appended at the end.
pub assume_specification[ String::push ](s: &mut String, ch: char)
    ensures
        final(s)@ == old(s)@.push(ch),
;

/// Relies on `str::chars` collected into a `Vec`: the characters of `s`, in order.
#[verifier::external_body]
pub(crate) fn chars_of(s: &str) -> (r: Vec<char>)
    ensures
        r@ == s@,
{
    s.chars().collect()
}

/// Appends `s` to `dst`.
pub(crate) fn push_str(dst: &mut String, s: &str)
    ensures
        final(dst)@ == old(dst)@ + s@,
{
    let cs = chars_of(s);
    let mut i: usize = 0;
    while i < cs.len()
        invariant
            0 <= i <= cs@.len(),
            cs@ == s@,
            dst@ == old(dst)@ + s@.subrange(0, i as int),
        decreases cs@.len() - i,
    {
        dst.push(cs[i]);
        i = i + 1;
        assert(s@.subrange(0, i as int) == s@.subrange(0, i - 1 as int).push(cs@[i - 1]));
    }
    assert(s@.subrange(0, s@.len() as int) == s@);
}

/// Concatenation of two strings into a fresh one.
pub(crate) fn concat(a: &str, b: &str) -> (r: String)
    ensures
        r@ == a@ + b@,
{
    let mut r = String::new();
    push_str(&mut r, a);
    push_str(&mut r, b);
    assert(r@ == a@ + b@);
    r
}

/// Escaping of one character for use inside a double-quoted attribute value.
pub open spec fn attr_escape_char(c: char) -> Seq<char> {
    if c == '&' {
        seq!['&', 'a', 'm', 'p', ';']
    } else if c == '<' {
        seq!['&', 'l', 't', ';']
    } else if c == '>' {
        seq!['&', 'g', 't', ';']
    } else if c == '"' {
        seq!['&', 'q', 'u', 'o', 't', ';']
    } else if c == '\'' {
        seq!['&', '#', '3', '9', ';']
    } else {
        seq![c]
    }
}

/// The attribute-safe form of `s`: each character escaped in turn.
pub open spec fn attr_escaped(s: Seq<char>) -> Seq<char>
    decreases s.len(),
{
    if s.len() == 0 {
        Seq::empty()
    } else {
        attr_escaped(s.drop_last()) + attr_escape_char(s.last())
    }
}

/// Escaping of one character of body text, as an HTML serializer writes text nodes.
pub open spec fn text_escape_char(c: char) -> Seq<char> {
    if c == '&' {
        seq!['&', 'a', 'm', 'p', ';']
    } else if c == '<' {
        seq!['&', 'l', 't', ';']
    } else if c == '>' {
        seq!['&', 'g', 't', ';']
    } else {
        seq![c]
    }
}

/// The escaped form of body text `s`.
pub open spec fn text_escaped(s: Seq<char>) -> Seq<char>
    decreases s.len(),
{
    if s.len() == 0 {
        Seq::empty()
    } else {
        text_escaped(s.drop_last()) + text_escape_char(s.last())
    }
}

/// Escaping body text distributes over concatenation.
pub proof fn lemma_text_escaped_concat(a: Seq<char>, b: Seq<char>)
    ensures
        text_escaped(a + b) == text_escaped(a) + text_escaped(b),
    decreases b.len(),
{
    if b.len() == 0 {
        assert(a + b == a);
        assert(text_escaped(b) == Seq::<char>::empty());
        assert(text_escaped(a) + Seq::<char>::empty() == text_escaped(a));
    } else {
        lemma_text_escaped_concat(a, b.drop_last());
        assert((a + b).drop_last() == a + b.drop_last());
        assert((a + b).last() == b.last());
        assert(text_escaped(a + b) == text_escaped(a + b.drop_last()) + text_escape_char(b.last()));
        assert(text_escaped(a) + text_escaped(b.drop_last()) + text_escape_char(b.last())
            == text_escaped(a) + (text_escaped(b.drop_last()) + text_escape_char(b.last())));
    }
}

/// No escaped attribute value holds a quote or an angle bracket, so it cannot
/// close the attribute or the tag it stands in.
pub proof fn lemma_attr_escaped_is_inert(s: Seq<char>)
    ensures
        forall|i: int|
            0 <= i < attr_escaped(s).len() ==> {
                let c = #[trigger] attr_escaped(s)[i];
                c != '"' && c != '\'' && c != '<' && c != '>'
            },
    decreases s.len(),
{
    if s.len() > 0 {
        lemma_attr_escaped_is_inert(s.drop_last());
        let prev = attr_escaped(s.drop_last());
        let tail = attr_escape_char(s.last());
        assert(attr_escaped(s) == prev + tail);
        assert forall|i: int| 0 <= i < attr_escaped(s).len() implies {
            let c = #[trigger] attr_escaped(s)[i];
            c != '"' && c != '\'' && c != '<' && c != '>'
        } by {
            if i < prev.len() {
                assert(attr_escaped(s)[i] == prev[i]);
            } else {
                assert(attr_escaped(s)[i] == tail[i - prev.len()]);
            }
        }
    }
}

/// Appends the characters of a short entity.
fn push_chars(dst: &mut String, Ghost(cs): Ghost<Seq<char>>, a: char, b: char, c: char, d: char, e: char, n: usize)
    requires
        3 <= n <= 5,
        cs.len() == n,
        cs[0] == a,
        cs[1] == b,
        cs[2] == c,
        n >= 4 ==> cs[3] == d,
        n == 5 ==> cs[4] == e,
    ensures
        final(dst)@ == old(dst)@ + cs,
{
    dst.push(a);
    dst.push(b);
    dst.push(c);
    if n >= 4 {
        dst.push(d);
    }
    if n == 5 {
        dst.push(e);
    }
    assert(final(dst)@ =~= old(dst)@ + cs);
}

/// Appends the attribute-escaped form of `c`.
fn push_attr_escaped_char(dst: &mut String, c: char)
    ensures
        final(dst)@ == old(dst)@ + attr_escape_char(c),
{
    if c == '&' {
        push_chars(dst, Ghost(attr_escape_char(c)), '&', 'a', 'm', 'p', ';', 5);
    } else if c == '<' {
        push_chars(dst, Ghost(attr_escape_char(c)), '&', 'l', 't', ';', ' ', 4);
    } else if c == '>' {
        push_chars(dst, Ghost(attr_escape_char(c)), '&', 'g', 't', ';', ' ', 4);
    } else if c == '"' {
        dst.push('&');
        push_chars(dst, Ghost(attr_escape_char(c).drop_first()), 'q', 'u', 'o', 't', ';', 5);
        assert(attr_escape_char(c) =~= seq!['&'] + attr_escape_char(c).drop_first());
    } else if c == '\'' {
        push_chars(dst, Ghost(attr_escape_char(c)), '&', '#', '3', '9', ';', 5);
    } else {
        dst.push(c);
        assert(final(dst)@ =~= old(dst)@ + attr_escape_char(c));
    }
}

/// Escapes `s` for use inside a double-quoted HTML attribute value.
pub fn escape_attribute(s: &str) -> (r: String)
    ensures
        r@ == attr_escaped(s@),
{
    let cs = chars_of(s);
    let mut r = String::new();
    let mut i: usize = 0;
    while i < cs.len()
        invariant
            0 <= i <= cs@.len(),
            cs@ == s@,
            r@ == attr_escaped(s@.subrange(0, i as int)),
        decreases cs@.len() - i,
    {
        let ghost before = s@.subrange(0, i as int);
        push_attr_escaped_char(&mut r, cs[i]);
        i = i + 1;
        assert(s@.subrange(0, i as int).drop_last() == before);
        assert(s@.subrange(0, i as int).last() == cs@[i - 1]);
    }
    assert(s@.subrange(0, s@.len() as int) == s@);
    r
}

/// The values of a sequence of strings.
pub open spec fn string_views(v: Seq<String>) -> Seq<Seq<char>> {
    v.map_values(|s: String| s@)
}

/// The string holding `cs[from..to]`.
pub(crate) fn string_of(cs: &Vec<char>, from: usize, to: usize) -> (r: String)
    requires
        from <= to <= cs@.len(),
    ensures
        r@ == cs@.subrange(from as int, to as int),
{
    let mut r = String::new();
    let mut i = from;
    while i < to
        invariant
            from <= i <= to <= cs@.len(),
            r@ == cs@.subrange(from as int, i as int),
        decreases to - i,
    {
        r.push(cs[i]);
        i = i + 1;
        assert(cs@.subrange(from as int, i as int) == cs@.subrange(from as int, i - 1 as int).push(cs@[i - 1]));
    }
    r
}

} // verus!
