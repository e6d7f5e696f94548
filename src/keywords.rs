//! Where the keyword patterns come from, and how a keyword file is read.

use vstd::prelude::*;
use vstd::string::*;

verus! {

/// The pattern that matches every title; a new keyword file holds it alone.
pub open spec fn wildcard() -> Seq<char> {
    seq!['*']
}

/// The text written to a keyword file created on first run.
pub fn default_keyword_content() -> (r: String)
    ensures
        r@ == wildcard(),
{
    let r = String::from_str("*");
    proof {
        reveal_strlit("*");
    }
    assert(r@ =~= wildcard());
    r
}

/// Whether a pattern matches every text without consulting the regex
/// engine: the wildcard, or the empty pattern (a blank keyword line).
pub open spec fn catch_all(p: Seq<char>) -> bool {
    p == wildcard() || p.len() == 0
}

/// Whether `p` is a pattern that matches every text.
pub fn is_catch_all(p: &str) -> (r: bool)
    ensures
        r == catch_all(p@),
{
    let n = p.unicode_len();
    if n == 0 {
        true
    } else if n == 1 {
        let c = p.get_char(0);
        assert(c == '*' ==> p@ =~= wildcard());
        c == '*'
    } else {
        false
    }
}

/// The place the keyword list is taken from.
#[derive(Debug)]
pub enum KeywordSource {
    /// A file the user named; failing to open it is fatal.
    Explicit(String),
    /// The default per-user file, which exists.
    ReadDefault,
    /// The default per-user file, which does not exist yet: create it with
    /// the wildcard line and use that.
    CreateDefault,
}

/// Decides where the keywords come from: a named file wins; otherwise the
/// default file, created first when it is missing.
pub fn select_keyword_source(explicit: Option<String>, default_exists: bool) -> (r: KeywordSource)
    ensures
        match explicit {
            Some(p) => r == KeywordSource::Explicit(p),
            None => if default_exists {
                r == KeywordSource::ReadDefault
            } else {
                r == KeywordSource::CreateDefault
            },
        },
{
    match explicit {
        Some(p) => KeywordSource::Explicit(p),
        None => if default_exists {
            KeywordSource::ReadDefault
        } else {
            KeywordSource::CreateDefault
        },
    }
}

/// The pieces of `t` between line feeds: one more than the number of line
/// feeds, the last one possibly empty.
pub open spec fn pieces(t: Seq<char>) -> Seq<Seq<char>>
    decreases t.len(),
{
    if t.len() == 0 {
        seq![Seq::empty()]
    } else {
        let p = pieces(t.drop_last());
        if t.last() == '\n' {
            p.push(Seq::empty())
        } else {
            p.update(p.len() - 1, p.last().push(t.last()))
        }
    }
}

/// A line without the carriage return that ends it, if any.
pub open spec fn strip_cr(l: Seq<char>) -> Seq<char> {
    if l.len() > 0 && l.last() == '\r' {
        l.drop_last()
    } else {
        l
    }
}

/// The lines of a keyword file: split at line feeds, a final empty piece
/// dropped (so text ending in a line feed has no empty last line), and a
/// trailing carriage return taken off each line. Blank lines are kept.
pub open spec fn lines_of(t: Seq<char>) -> Seq<Seq<char>> {
    let p = pieces(t);
    let kept = if p.last().len() == 0 {
        p.drop_last()
    } else {
        p
    };
    kept.map_values(|l: Seq<char>| strip_cr(l))
}

proof fn lemma_pieces_nonempty(t: Seq<char>)
    ensures
        pieces(t).len() >= 1,
    decreases t.len(),
{
    if t.len() > 0 {
        lemma_pieces_nonempty(t.drop_last());
    }
}

fn without_cr(s: &str) -> (r: String)
    ensures
        r@ == strip_cr(s@),
{
    let n = s.unicode_len();
    if n > 0 && s.get_char(n - 1) == '\r' {
        let body = s.substring_char(0, n - 1);
        let r = String::from_str(body);
        assert(r@ =~= strip_cr(s@));
        r
    } else {
        String::from_str(s)
    }
}

/// Splits the text of a keyword file into its patterns, one per line.
pub fn parse_keyword_lines(text: &str) -> (r: Vec<String>)
    ensures
        r@.map_values(|s: String| s@) == lines_of(text@),
{
    let n = text.unicode_len();
    let mut out: Vec<String> = Vec::new();
    let mut start: usize = 0;
    let mut i: usize = 0;
    while i < n
        invariant
            n == text@.len(),
            start <= i <= n,
            pieces(text@.take(i as int)).len() == out@.len() + 1,
            pieces(text@.take(i as int)).last() == text@.subrange(start as int, i as int),
            forall|k: int|
                0 <= k < out@.len() ==> out@[k]@ == strip_cr(
                    #[trigger] pieces(text@.take(i as int))[k],
                ),
        decreases n - i,
    {
        let ghost before = pieces(text@.take(i as int));
        let c = text.get_char(i);
        assert(text@.take(i + 1).drop_last() =~= text@.take(i as int));
        if c == '\n' {
            let line = text.substring_char(start, i);
            let s = without_cr(line);
            out.push(s);
            start = i + 1;
        } else {
            assert(text@.subrange(start as int, i + 1) =~= text@.subrange(start as int, i as int).push(c));
        }
        i = i + 1;
        assert(text@.subrange(start as int, i as int) =~= pieces(text@.take(i as int)).last());
    }
    assert(text@.take(n as int) =~= text@);
    proof {
        lemma_pieces_nonempty(text@);
    }
    let last = text.substring_char(start, n);
    if last.unicode_len() > 0 {
        let s = without_cr(last);
        out.push(s);
    }
    assert(out@.map_values(|s: String| s@) =~= lines_of(text@));
    out
}

} // verus!
