//! From the listing to the stories worth showing: the cutoff on detail
//! fetches, the all-or-nothing collection of details, and the keyword filter.

use vstd::prelude::*;
use crate::keywords::catch_all;
use crate::matcher::{any_pattern_matches, lemma_filter_has, pattern_matches, KeywordMatcher};
use crate::story::{RunError, Story};

verus! {

/// Whether a story's title (empty when absent) is matched by the keywords.
pub open spec fn story_matches(kw: Seq<Seq<char>>, s: Story) -> bool {
    any_pattern_matches(kw, s.title_view())
}

/// The stories of `stories` that the keywords match, in their order.
pub open spec fn matching(kw: Seq<Seq<char>>, stories: Seq<Story>) -> Seq<Story> {
    stories.filter(|s: Story| story_matches(kw, s))
}

/// Whether every detail fetch succeeded.
pub open spec fn all_fetched(rs: Seq<Result<Story, RunError>>) -> bool {
    forall|i: int| 0 <= i < rs.len() ==> (#[trigger] rs[i]) is Ok
}

/// The stories of a sequence of successful fetches.
pub open spec fn fetched(rs: Seq<Result<Story, RunError>>) -> Seq<Story> {
    rs.map_values(|r: Result<Story, RunError>| r->Ok_0)
}

/// Whether `e` is the error of the first failed fetch in `rs`.
pub open spec fn first_failure(rs: Seq<Result<Story, RunError>>, e: RunError) -> bool {
    exists|i: int|
        0 <= i < rs.len() && rs[i] == Err::<Story, RunError>(e) && all_fetched(
            #[trigger] rs.take(i),
        )
}

/// The identifiers whose details are fetched: the first `cutoff` of the
/// listing, or all of it when it is shorter.
pub fn select_ids(ids: Vec<u64>, cutoff: usize) -> (r: Vec<u64>)
    ensures
        r@ == ids@.take(if cutoff < ids@.len() { cutoff as int } else { ids@.len() as int }),
        r@.len() <= cutoff,
{
    let mut r = ids;
    let ghost orig = r@;
    r.truncate(cutoff);
    assert(r@ =~= orig.take(if cutoff < orig.len() { cutoff as int } else { orig.len() as int }));
    r
}

/// Gathers the fetched details. Any failure is fatal: the result is then the
/// first failure and no story at all; otherwise every story, in order.
pub fn collect_details(results: Vec<Result<Story, RunError>>) -> (r: Result<Vec<Story>, RunError>)
    ensures
        r is Ok <==> all_fetched(results@),
        r is Ok ==> r->Ok_0@ == fetched(results@),
        r is Err ==> first_failure(results@, r->Err_0),
{
    let ghost orig = results@;
    let mut rest = results;
    let n = rest.len();
    let mut out: Vec<Story> = Vec::new();
    let mut i: usize = 0;
    while rest.len() > 0
        invariant
            orig == results@,
            orig.len() == n,
            i + rest@.len() == orig.len(),
            rest@ == orig.skip(i as int),
            all_fetched(orig.take(i as int)),
            out@ == fetched(orig.take(i as int)),
        decreases rest@.len(),
    {
        let item = rest.remove(0);
        assert(item == orig[i as int]);
        match item {
            Ok(s) => {
                out.push(s);
                assert(orig.take(i + 1) =~= orig.take(i as int).push(orig[i as int]));
                assert(out@ =~= fetched(orig.take(i + 1)));
                i = i + 1;
                assert(rest@ =~= orig.skip(i as int));
            },
            Err(e) => {
                assert(orig[i as int] == Err::<Story, RunError>(e));
                assert(!all_fetched(orig));
                assert(first_failure(orig, e));
                return Err(e);
            },
        }
    }
    assert(orig.take(i as int) =~= orig);
    Ok(out)
}

/// Keeps the stories whose title the keywords match, in their order.
pub fn filter_matching(stories: Vec<Story>, m: &KeywordMatcher) -> (r: Vec<Story>)
    ensures
        r@ == matching(m.keywords(), stories@),
{
    let ghost orig = stories@;
    let ghost pred = |s: Story| story_matches(m.keywords(), s);
    let mut rest = stories;
    let n = rest.len();
    let mut out: Vec<Story> = Vec::new();
    let mut i: usize = 0;
    while rest.len() > 0
        invariant
            orig.len() == n,
            i + rest@.len() == orig.len(),
            rest@ == orig.skip(i as int),
            pred == (|s: Story| story_matches(m.keywords(), s)),
            out@ == orig.take(i as int).filter(pred),
        decreases rest@.len(),
    {
        let s = rest.remove(0);
        assert(s == orig[i as int]);
        let ghost before = orig.take(i as int);
        let ghost after = orig.take(i + 1);
        assert(after.drop_last() =~= before);
        proof {
            reveal(Seq::filter);
        }
        if m.matches(s.title_text()) {
            out.push(s);
        }
        i = i + 1;
        assert(rest@ =~= orig.skip(i as int));
    }
    assert(orig.take(i as int) =~= orig);
    out
}

/// The end of a run: every fetched detail gathered, then filtered. One
/// failed fetch fails the whole run, with no story kept.
pub fn finish_run(results: Vec<Result<Story, RunError>>, m: &KeywordMatcher) -> (r: Result<Vec<Story>, RunError>)
    ensures
        r is Ok <==> all_fetched(results@),
        r is Ok ==> r->Ok_0@ == matching(m.keywords(), fetched(results@)),
        r is Err ==> first_failure(results@, r->Err_0),
{
    match collect_details(results) {
        Ok(stories) => Ok(filter_matching(stories, m)),
        Err(e) => Err(e),
    }
}

/// A keyword list holding a pattern that matches everything (the wildcard or
/// the empty pattern) matches every story that has a title.
pub proof fn lemma_wildcard_matches_titled(kw: Seq<Seq<char>>, s: Story)
    requires
        exists|i: int| 0 <= i < kw.len() && #[trigger] catch_all(kw[i]),
        s.title is Some,
    ensures
        story_matches(kw, s),
{
    let i = choose|i: int| 0 <= i < kw.len() && catch_all(kw[i]);
    assert(pattern_matches(kw[i], s.title_view()));
}

/// A story without a title is matched exactly when some pattern matches the
/// empty text.
pub proof fn lemma_untitled_matches_iff_empty_matches(kw: Seq<Seq<char>>, s: Story)
    requires
        s.title is None,
    ensures
        story_matches(kw, s) <==> exists|i: int|
            0 <= i < kw.len() && pattern_matches(#[trigger] kw[i], Seq::<char>::empty()),
{
}

/// The stories kept do not depend on the order in which the details
/// arrived: two arrivals of the same stories keep the same set.
pub proof fn lemma_matches_independent_of_order(kw: Seq<Seq<char>>, a: Seq<Story>, b: Seq<Story>)
    requires
        a.to_multiset() == b.to_multiset(),
    ensures
        matching(kw, a).to_set() == matching(kw, b).to_set(),
{
    let pred = |s: Story| story_matches(kw, s);
    assert forall|x: Story| matching(kw, a).to_set().contains(x) <==> matching(kw, b).to_set().contains(x) by {
        a.to_multiset_ensures();
        b.to_multiset_ensures();
        lemma_filter_has(a, pred, x);
        lemma_filter_has(b, pred, x);
        assert(a.contains(x) <==> a.to_multiset().count(x) > 0);
        assert(b.contains(x) <==> b.to_multiset().count(x) > 0);
    }
    assert(matching(kw, a).to_set() =~= matching(kw, b).to_set());
}

} // verus!
