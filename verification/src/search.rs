//! The line matcher: return, in document order, the lines of a text that
//! contain a query, either verbatim or with both sides folded to lowercase.

use vstd::prelude::*;
use crate::text::contains_substring;
use crate::text::has_substring;
use crate::text::lemma_empty_needle;
use crate::text::lines_of;
use crate::text::split_lines;

verus! {

/// What `str::to_lowercase` returns, as a function of the characters alone.
pub uninterp spec fn lower_of(s: Seq<char>) -> Seq<char>;

/// Relies on `str::to_lowercase`: its result is determined by the characters
/// of its argument alone, and the lowercase form of the empty string is empty.
#[verifier::external_body]
fn lowercase(s: &str) -> (r: String)
    ensures
        r@ == lower_of(s@),
        s@.len() == 0 ==> r@.len() == 0,
{
    s.to_lowercase()
}

/// The case-sensitive test: a line matches when it contains the query
/// verbatim.
pub open spec fn sensitive_pred(query: Seq<char>) -> spec_fn(Seq<char>) -> bool {
    |line: Seq<char>| has_substring(line, query)
}

/// The case-insensitive test: a line matches when its lowercase form
/// contains the lowercase form of the query.
pub open spec fn insensitive_pred(query: Seq<char>) -> spec_fn(Seq<char>) -> bool {
    |line: Seq<char>| has_substring(lower_of(line), lower_of(query))
}

/// The lines of `text` that contain `query` verbatim, in document order.
pub open spec fn spec_search(query: Seq<char>, text: Seq<char>) -> Seq<Seq<char>> {
    lines_of(text).filter(sensitive_pred(query))
}

/// The lines of `text` whose lowercase form contains the lowercase form of
/// `query`, in document order and with their original text.
pub open spec fn spec_search_case_insensitive(query: Seq<char>, text: Seq<char>) -> Seq<
    Seq<char>,
> {
    lines_of(text).filter(insensitive_pred(query))
}

pub(crate) proof fn lemma_filter_push<A>(s: Seq<A>, x: A, pred: spec_fn(A) -> bool)
    ensures
        s.push(x).filter(pred) == if pred(x) {
            s.filter(pred).push(x)
        } else {
            s.filter(pred)
        },
{
    reveal(Seq::filter);
    assert(s.push(x).drop_last() =~= s);
    assert(s.push(x).last() == x);
}

pub(crate) proof fn lemma_filter_empty<A>(pred: spec_fn(A) -> bool)
    ensures
        Seq::<A>::empty().filter(pred) == Seq::<A>::empty(),
{
    reveal(Seq::filter);
}

pub(crate) proof fn lemma_filter_all_true<A>(s: Seq<A>, pred: spec_fn(A) -> bool)
    requires
        forall|i: int| 0 <= i < s.len() ==> pred(#[trigger] s[i]),
    ensures
        s.filter(pred) == s,
    decreases s.len(),
{
    reveal(Seq::filter);
    if s.len() > 0 {
        lemma_filter_all_true(s.drop_last(), pred);
        assert(pred(s[s.len() - 1]));
        assert(s.drop_last().push(s.last()) =~= s);
    }
}

/// Every line of `contents` that contains `query` verbatim, in document
/// order; nothing else.
pub fn search<'a>(query: &str, contents: &'a str) -> (results: Vec<&'a str>)
    ensures
        results.deep_view() == spec_search(query@, contents@),
        query@.len() == 0 ==> results.deep_view() == lines_of(contents@),
        contents@.len() == 0 ==> results@.len() == 0,
{
    let lines = split_lines(contents);
    let ghost all = lines.deep_view();
    let ghost pred = sensitive_pred(query@);
    let mut results: Vec<&'a str> = Vec::new();
    proof {
        assert(all.take(0) =~= Seq::<Seq<char>>::empty());
        assert(results.deep_view() =~= Seq::<Seq<char>>::empty());
        lemma_filter_empty::<Seq<char>>(pred);
    }
    let mut i: usize = 0;
    while i < lines.len()
        invariant
            i <= lines@.len(),
            all == lines.deep_view(),
            all == lines_of(contents@),
            pred == sensitive_pred(query@),
            results.deep_view() == all.take(i as int).filter(pred),
        decreases lines@.len() - i,
    {
        let line = lines[i];
        let ghost prev = results.deep_view();
        let matched = contains_substring(line, query);
        if matched {
            results.push(line);
        }
        proof {
            assert(line@ == all[i as int]);
            assert(all.take(i + 1) =~= all.take(i as int).push(all[i as int]));
            lemma_filter_push(all.take(i as int), all[i as int], pred);
            if matched {
                assert(results.deep_view() =~= prev.push(line@));
            }
        }
        i += 1;
    }
    proof {
        assert(all.take(lines@.len() as int) =~= all);
        if query@.len() == 0 {
            assert forall|j: int| 0 <= j < all.len() implies pred(#[trigger] all[j]) by {
                lemma_empty_needle(all[j], query@);
            }
            lemma_filter_all_true(all, pred);
        }
        if contents@.len() == 0 {
            assert(all =~= Seq::<Seq<char>>::empty());
            lemma_filter_empty::<Seq<char>>(pred);
        }
    }
    results
}

/// Every line of `contents` whose lowercase form contains the lowercase form
/// of `query`, in document order and with its original, unaltered text.
pub fn search_case_insensitive<'a>(query: &str, contents: &'a str) -> (results: Vec<&'a str>)
    ensures
        results.deep_view() == spec_search_case_insensitive(query@, contents@),
        query@.len() == 0 ==> results.deep_view() == lines_of(contents@),
        contents@.len() == 0 ==> results@.len() == 0,
{
    let lowered_query = lowercase(query);
    let lines = split_lines(contents);
    let ghost all = lines.deep_view();
    let ghost pred = insensitive_pred(query@);
    let mut results: Vec<&'a str> = Vec::new();
    proof {
        assert(all.take(0) =~= Seq::<Seq<char>>::empty());
        assert(results.deep_view() =~= Seq::<Seq<char>>::empty());
        lemma_filter_empty::<Seq<char>>(pred);
    }
    let mut i: usize = 0;
    while i < lines.len()
        invariant
            i <= lines@.len(),
            all == lines.deep_view(),
            all == lines_of(contents@),
            pred == insensitive_pred(query@),
            lowered_query@ == lower_of(query@),
            results.deep_view() == all.take(i as int).filter(pred),
        decreases lines@.len() - i,
    {
        let line = lines[i];
        let ghost prev = results.deep_view();
        let lowered_line = lowercase(line);
        let matched = contains_substring(lowered_line.as_str(), lowered_query.as_str());
        if matched {
            results.push(line);
        }
        proof {
            assert(line@ == all[i as int]);
            assert(all.take(i + 1) =~= all.take(i as int).push(all[i as int]));
            lemma_filter_push(all.take(i as int), all[i as int], pred);
            if matched {
                assert(results.deep_view() =~= prev.push(line@));
            }
        }
        i += 1;
    }
    proof {
        assert(all.take(lines@.len() as int) =~= all);
        if query@.len() == 0 {
            assert forall|j: int| 0 <= j < all.len() implies pred(#[trigger] all[j]) by {
                lemma_empty_needle(lower_of(all[j]), lower_of(query@));
            }
            lemma_filter_all_true(all, pred);
        }
        if contents@.len() == 0 {
            assert(all =~= Seq::<Seq<char>>::empty());
            lemma_filter_empty::<Seq<char>>(pred);
        }
    }
    results
}

/// The matching lines for one query over one document, in document order:
/// verbatim containment when `case_sensitive` is set, lowercase containment
/// otherwise.
pub open spec fn spec_matching_lines(
    query: Seq<char>,
    text: Seq<char>,
    case_sensitive: bool,
) -> Seq<Seq<char>> {
    if case_sensitive {
        spec_search(query, text)
    } else {
        spec_search_case_insensitive(query, text)
    }
}

/// Run the search that `case_sensitive` selects over the whole document.
pub fn matching_lines<'a>(query: &str, contents: &'a str, case_sensitive: bool) -> (results: Vec<
    &'a str,
>)
    ensures
        results.deep_view() == spec_matching_lines(query@, contents@, case_sensitive),
        query@.len() == 0 ==> results.deep_view() == lines_of(contents@),
        contents@.len() == 0 ==> results@.len() == 0,
{
    if case_sensitive {
        search(query, contents)
    } else {
        search_case_insensitive(query, contents)
    }
}

} // verus!
