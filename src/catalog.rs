//! The syntax catalog and the class-based highlighter, both from syntect.
//!
//! A [`Catalog`] only ever holds the syntax definitions bundled with
//! syntect, so what it answers depends on the question alone: those answers
//! are named here, and the renderer is stated in terms of them.
use vstd::prelude::*;
use syntect::html::ClassedHTMLGenerator;
use syntect::parsing::SyntaxSet;
use crate::text::{chars_of, string_of, string_views};

verus! {

/// syntect's catalog of syntax definitions, held opaquely.
#[verifier::external_type_specification]
#[verifier::external_body]
pub struct ExSyntaxSet(SyntaxSet);

/// The syntax, by its position among the bundled definitions, that a fence
/// token names.
pub uninterp spec fn token_syntax(token: Seq<char>) -> Option<nat>;

/// The syntax, by position, recognised from the first line of a text.
pub uninterp spec fn first_line_syntax(text: Seq<char>) -> Option<nat>;

/// The name of the bundled syntax at a position.
pub uninterp spec fn syntax_name(id: nat) -> Seq<char>;

/// The class-based markup that syntect makes of `code` in the bundled syntax
/// at position `id`, fed a whole line at a time.
pub uninterp spec fn classed_markup(id: nat, code: Seq<char>) -> Seq<char>;

/// The syntax definitions bundled with syntect. Every catalog holds the same
/// definitions, whose patterns syntect ships compiled and tested.
pub struct Catalog {
    set: SyntaxSet,
}

/// One syntax definition of the bundled catalog, by its position.
pub struct Syntax {
    index: usize,
}

impl View for Syntax {
    type V = nat;

    closed spec fn view(&self) -> nat {
        self.index as nat
    }
}

/// Relies on `SyntaxSet::load_defaults_newlines`: the bundled definitions.
#[verifier::external_body]
fn bundled_set() -> SyntaxSet {
    SyntaxSet::load_defaults_newlines()
}

impl Catalog {
    /// The catalog of syntect's bundled syntax definitions.
    pub fn bundled() -> Catalog {
        Catalog { set: bundled_set() }
    }

    /// Relies on `SyntaxSet::find_syntax_by_token` (by file extension, then
    /// by name, ignoring ASCII case): the syntax a fence token names, given
    /// by its position in `SyntaxSet::syntaxes`.
    #[verifier::external_body]
    pub fn resolve(&self, token: &str) -> (r: Option<Syntax>)
        ensures
            match r {
                Some(s) => token_syntax(token@) == Some(s@),
                None => token_syntax(token@) is None,
            },
    {
        let found = self.set.find_syntax_by_token(token)?;
        let index = self.set.syntaxes().iter().position(|s| std::ptr::eq(s, found))?;
        Some(Syntax { index })
    }

    /// Relies on `SyntaxSet::find_syntax_by_first_line`: the syntax whose
    /// first-line pattern matches `text`, by its position.
    #[verifier::external_body]
    pub fn sniff(&self, text: &str) -> (r: Option<Syntax>)
        ensures
            match r {
                Some(s) => first_line_syntax(text@) == Some(s@),
                None => first_line_syntax(text@) is None,
            },
    {
        let found = self.set.find_syntax_by_first_line(text)?;
        let index = self.set.syntaxes().iter().position(|s| std::ptr::eq(s, found))?;
        Some(Syntax { index })
    }

    /// Relies on the public `name` field of `SyntaxReference`.
    #[verifier::external_body]
    pub fn name_of(&self, syntax: &Syntax) -> (r: String)
        ensures
            r@ == syntax_name(syntax@),
    {
        self.set.syntaxes()[syntax.index].name.clone()
    }

    /// Relies on `ClassedHTMLGenerator` with space-separated classes: a fresh
    /// highlighter for the syntax, fed each line in turn
    /// (`parse_html_for_line_which_includes_newline`, whose errors leave the
    /// line out as the generator sees fit), then `finalize`d.
    #[verifier::external_body]
    fn classed_lines(&self, syntax: &Syntax, lines: &Vec<String>) -> (r: String)
        requires
            whole_lines(string_views(lines@)),
        ensures
            r@ == classed_markup(syntax@, joined(string_views(lines@))),
    {
        let reference = &self.set.syntaxes()[syntax.index];
        let mut g = ClassedHTMLGenerator::new_with_class_style(reference, &self.set, syntect::html::ClassStyle::Spaced);
        for line in lines {
            let _ = g.parse_html_for_line_which_includes_newline(line);
        }
        g.finalize()
    }

    /// The class-based markup for `code` in `syntax`, fed to the highlighter
    /// a whole line at a time (see `code_lines`), so that the result does not
    /// depend on how the code arrived.
    pub fn highlight(&self, syntax: &Syntax, code: &str) -> (r: String)
        ensures
            r@ == classed_markup(syntax@, code@),
    {
        let lines = code_lines(code);
        self.classed_lines(syntax, &lines)
    }
}

/// The concatenation of `ls`.
pub open spec fn joined(ls: Seq<Seq<char>>) -> Seq<char>
    decreases ls.len(),
{
    if ls.len() == 0 {
        Seq::empty()
    } else {
        joined(ls.drop_last()) + ls.last()
    }
}

/// Whether `ls` are whole lines: none empty, a newline only as the last
/// character, and every line but the last ending in one.
pub open spec fn whole_lines(ls: Seq<Seq<char>>) -> bool {
    &&& forall|k: int| 0 <= k < ls.len() ==> #[trigger] ls[k].len() > 0
    &&& forall|k: int, j: int| 0 <= k < ls.len() && 0 <= j < ls[k].len() - 1 ==> #[trigger] ls[k][j] != '\n'
    &&& forall|k: int| 0 <= k < ls.len() - 1 ==> #[trigger] ls[k].last() == '\n'
}

/// `code` cut after each newline, as the highlighter is fed it.
pub fn code_lines(code: &str) -> (r: Vec<String>)
    ensures
        joined(string_views(r@)) == code@,
        whole_lines(string_views(r@)),
{
    let cs = chars_of(code);
    let n = cs.len();
    let mut out: Vec<String> = Vec::new();
    let mut start: usize = 0;
    let mut i: usize = 0;
    assert(code@.subrange(0, 0) == Seq::<char>::empty());
    assert(string_views(out@) == Seq::<Seq<char>>::empty());
    while i < n
        invariant
            cs@ == code@,
            n == cs@.len(),
            start <= i <= n,
            joined(string_views(out@)) == code@.subrange(0, start as int),
            whole_lines(string_views(out@)),
            forall|k: int| 0 <= k < out@.len() ==> #[trigger] string_views(out@)[k].last() == '\n',
            forall|j: int| start <= j < i ==> #[trigger] code@[j] != '\n',
        decreases n - i,
    {
        if cs[i] == '\n' {
            let line = string_of(&cs, start, i + 1);
            let ghost before = string_views(out@);
            out.push(line);
            let ghost after = string_views(out@);
            assert(after == before.push(line@));
            assert(after.drop_last() == before);
            assert(code@.subrange(0, i + 1) == code@.subrange(0, start as int) + line@);
            assert forall|k: int, j: int| 0 <= k < after.len() && 0 <= j < after[k].len() - 1 implies #[trigger] after[k][j] != '\n' by {
                if k < before.len() {
                    assert(after[k] == before[k]);
                } else {
                    assert(after[k][j] == code@[start + j]);
                }
            }
            assert forall|k: int| 0 <= k < after.len() implies #[trigger] after[k].last() == '\n' by {
                if k < before.len() {
                    assert(after[k] == before[k]);
                }
            }
            start = i + 1;
        }
        i = i + 1;
    }
    if start < n {
        let line = string_of(&cs, start, n);
        let ghost before = string_views(out@);
        out.push(line);
        let ghost after = string_views(out@);
        assert(after == before.push(line@));
        assert(after.drop_last() == before);
        assert(code@.subrange(0, n as int) == code@.subrange(0, start as int) + line@);
        assert forall|k: int, j: int| 0 <= k < after.len() && 0 <= j < after[k].len() - 1 implies #[trigger] after[k][j] != '\n' by {
            if k < before.len() {
                assert(after[k] == before[k]);
            } else {
                assert(after[k][j] == code@[start + j]);
            }
        }
        assert forall|k: int| 0 <= k < after.len() - 1 implies #[trigger] after[k].last() == '\n' by {
            assert(after[k] == before[k]);
        }
    }
    assert(code@.subrange(0, n as int) == code@);
    out
}

} // verus!
