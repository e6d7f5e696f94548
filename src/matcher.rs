//! A keyword list compiled into one case-insensitive multi-pattern matcher.

use vstd::prelude::*;
use crate::keywords::{catch_all, is_catch_all};

verus! {

#[verifier::external_type_specification]
#[verifier::external_body]
pub struct ExRegexSet(regex::RegexSet);

#[verifier::external_type_specification]
#[verifier::external_body]
pub struct ExRegexError(regex::Error);

/// The patterns a compiled regex set holds, in the order it was given them.
pub uninterp spec fn set_patterns(s: regex::RegexSet) -> Seq<Seq<char>>;

/// Whether a regex set was compiled to ignore case.
pub uninterp spec fn set_ignores_case(s: regex::RegexSet) -> bool;

/// Whether the regular expression `pattern`, compiled case-insensitively when
/// `ignore_case` holds, matches somewhere in `text` (unanchored search).
pub uninterp spec fn regex_finds(pattern: Seq<char>, ignore_case: bool, text: Seq<char>) -> bool;

/// Whether regex's set builder accepts these patterns, compiled to ignore
/// case: each is valid syntax and the whole stays within the builder's
/// fixed size limits.
pub uninterp spec fn regex_set_builds(patterns: Seq<Seq<char>>) -> bool;

/// Relies on regex::RegexSetBuilder (new, case_insensitive, build): the build
/// depends on the patterns alone, and on success the set holds exactly the
/// given patterns, in order, compiled to ignore case.
#[verifier::external_body]
fn build_ignoring_case(patterns: &Vec<String>) -> (r: Result<regex::RegexSet, regex::Error>)
    ensures
        r is Ok ==> set_patterns(r->Ok_0) == patterns@.map_values(|s: String| s@),
        r is Ok ==> set_ignores_case(r->Ok_0),
        r is Ok <==> regex_set_builds(patterns@.map_values(|s: String| s@)),
{
    regex::RegexSetBuilder::new(patterns).case_insensitive(true).build()
}

/// Relies on regex::RegexSet::is_match: true exactly when one of the set's
/// patterns matches somewhere in the haystack.
#[verifier::external_body]
fn set_is_match(s: &regex::RegexSet, text: &str) -> (r: bool)
    ensures
        r == (exists|i: int| 0 <= i < set_patterns(*s).len() && #[trigger] regex_finds(set_patterns(*s)[i], set_ignores_case(*s), text@)),
{
    s.is_match(text)
}

/// Whether one keyword pattern matches a title: the wildcard and the empty
/// pattern match every text, any other pattern is a case-insensitive regex
/// searched anywhere.
pub open spec fn pattern_matches(p: Seq<char>, text: Seq<char>) -> bool {
    catch_all(p) || regex_finds(p, true, text)
}

/// Whether at least one pattern of the list matches the text.
pub open spec fn any_pattern_matches(ps: Seq<Seq<char>>, text: Seq<char>) -> bool {
    exists|i: int| 0 <= i < ps.len() && pattern_matches(#[trigger] ps[i], text)
}

/// Whether some pattern of the list matches everything.
pub open spec fn has_catch_all(ps: Seq<Seq<char>>) -> bool {
    exists|i: int| 0 <= i < ps.len() && #[trigger] catch_all(ps[i])
}

/// The patterns of a list that need the regex engine: all but the ones that
/// match everything.
pub open spec fn regex_patterns(ps: Seq<Seq<char>>) -> Seq<Seq<char>> {
    ps.filter(|p: Seq<char>| !catch_all(p))
}

/// An element is kept by a filter exactly when it is in the sequence and
/// passes the predicate.
pub proof fn lemma_filter_has<A>(s: Seq<A>, pred: spec_fn(A) -> bool, x: A)
    ensures
        s.filter(pred).contains(x) <==> (s.contains(x) && pred(x)),
    decreases s.len(),
{
    reveal(Seq::filter);
    if s.len() > 0 {
        let d = s.drop_last();
        let sub = d.filter(pred);
        lemma_filter_has(d, pred, x);
        if s.contains(x) {
            let i = choose|i: int| 0 <= i < s.len() && s[i] == x;
            if i < s.len() - 1 {
                assert(d[i] == x);
            }
        }
        if d.contains(x) {
            let i = choose|i: int| 0 <= i < d.len() && d[i] == x;
            assert(s[i] == x);
        }
        if pred(s.last()) {
            let f = sub.push(s.last());
            assert(f[f.len() - 1] == s.last());
            if sub.contains(x) {
                let i = choose|i: int| 0 <= i < sub.len() && sub[i] == x;
                assert(f[i] == x);
            }
            if f.contains(x) {
                let i = choose|i: int| 0 <= i < f.len() && f[i] == x;
                if i < sub.len() {
                    assert(sub[i] == x);
                }
            }
        }
        if s.last() == x {
            assert(s[s.len() - 1] == x);
        }
    }
}

/// Why a keyword list could not be compiled.
#[derive(Debug)]
pub struct PatternError {
    pub message: String,
}

/// A compiled keyword list.
pub struct KeywordMatcher {
    set: Option<regex::RegexSet>,
    any: bool,
    keywords: Ghost<Seq<Seq<char>>>,
}

impl KeywordMatcher {
    /// The keyword patterns this matcher was compiled from.
    pub closed spec fn keywords(&self) -> Seq<Seq<char>> {
        self.keywords@
    }

    #[verifier::type_invariant]
    closed spec fn wf(&self) -> bool {
        let kw = self.keywords@;
        &&& self.any == has_catch_all(kw)
        &&& match self.set {
            None => regex_patterns(kw).len() == 0,
            Some(s) => set_ignores_case(s) && set_patterns(s) == regex_patterns(kw),
        }
    }

    /// Compiles a keyword list, every pattern case-insensitive. Patterns that
    /// match everything need no compiling; the others are handed to the regex
    /// engine together, and the list compiles exactly when the engine accepts
    /// them (always, when there are none).
    pub fn compile(patterns: &Vec<String>) -> (r: Result<KeywordMatcher, PatternError>)
        ensures
            r is Ok ==> r->Ok_0.keywords() == patterns@.map_values(|s: String| s@),
            r is Ok <==> ({
                let rp = regex_patterns(patterns@.map_values(|s: String| s@));
                rp.len() == 0 || regex_set_builds(rp)
            }),
    {
        let ghost kw = patterns@.map_values(|s: String| s@);
        let ghost pred = |p: Seq<char>| !catch_all(p);
        let mut rest: Vec<String> = Vec::new();
        let mut any = false;
        let mut k: usize = 0;
        while k < patterns.len()
            invariant
                0 <= k <= patterns@.len(),
                kw == patterns@.map_values(|s: String| s@),
                pred == (|p: Seq<char>| !catch_all(p)),
                any == exists|i: int| 0 <= i < k && #[trigger] catch_all(kw[i]),
                rest@.map_values(|s: String| s@) == kw.take(k as int).filter(pred),
            decreases patterns@.len() - k,
        {
            let p = &patterns[k];
            let ghost before = kw.take(k as int);
            let ghost after = kw.take(k + 1);
            assert(after.drop_last() =~= before);
            assert(after.last() == p@);
            assert(kw[k as int] == p@);
            proof {
                reveal(Seq::filter);
            }
            if is_catch_all(p.as_str()) {
                any = true;
            } else {
                let q = p.clone();
                rest.push(q);
                assert(rest@.map_values(|s: String| s@) =~= before.filter(pred).push(p@));
            }
            k = k + 1;
        }
        assert(kw.len() == k as int);
        assert(kw.take(k as int) =~= kw);
        assert(rest@.map_values(|s: String| s@) == regex_patterns(kw));
        assert(any == has_catch_all(kw));
        if rest.len() == 0 {
            assert(regex_patterns(kw).len() == 0);
            Ok(KeywordMatcher { set: None, any, keywords: Ghost(kw) })
        } else {
            match build_ignoring_case(&rest) {
                Ok(s) => Ok(KeywordMatcher { set: Some(s), any, keywords: Ghost(kw) }),
                Err(e) => Err(PatternError { message: e.to_string() }),
            }
        }
    }

    /// Whether at least one keyword pattern matches `text`.
    pub fn matches(&self, text: &str) -> (r: bool)
        ensures
            r == any_pattern_matches(self.keywords(), text@),
    {
        proof {
            use_type_invariant(self);
        }
        let ghost kw = self.keywords@;
        let ghost pred = |p: Seq<char>| !catch_all(p);
        let ghost rp = regex_patterns(kw);
        if self.any {
            proof {
                let i = choose|i: int| 0 <= i < kw.len() && catch_all(kw[i]);
                assert(pattern_matches(kw[i], text@));
            }
            true
        } else {
            let r = match &self.set {
                None => false,
                Some(s) => set_is_match(s, text),
            };
            proof {
                if r {
                    let j = choose|j: int| 0 <= j < rp.len() && regex_finds(rp[j], true, text@);
                    assert(rp.contains(rp[j]));
                    lemma_filter_has(kw, pred, rp[j]);
                    let i = choose|i: int| 0 <= i < kw.len() && kw[i] == rp[j];
                    assert(pattern_matches(kw[i], text@));
                } else {
                    assert forall|i: int| 0 <= i < kw.len() implies !pattern_matches(#[trigger] kw[i], text@) by {
                        assert(!catch_all(kw[i]));
                        lemma_filter_has(kw, pred, kw[i]);
                        let j = choose|j: int| 0 <= j < rp.len() && rp[j] == kw[i];
                    }
                }
            }
            r
        }
    }
}

} // verus!
