//! The matcher's guarantees, stated over its specification functions and
//! proved once and for all: a search returns only matching lines, misses no
//! matching line, keeps the document's order, and treats the empty query and
//! the empty document as every line and no line respectively.

use vstd::prelude::*;
use crate::search::insensitive_pred;
use crate::search::lemma_filter_all_true;
use crate::search::lemma_filter_empty;
use crate::search::lower_of;
use crate::search::sensitive_pred;
use crate::search::spec_search;
use crate::search::spec_search_case_insensitive;
use crate::text::has_substring;
use crate::text::lemma_empty_needle;
use crate::text::lines_of;

verus! {

/// `idx` lists, in strictly increasing order, positions of `full` at which
/// the elements of `sub` stand, one per element of `sub`.
pub open spec fn selection_indices_ok(
    idx: Seq<int>,
    sub: Seq<Seq<char>>,
    full: Seq<Seq<char>>,
) -> bool {
    &&& idx.len() == sub.len()
    &&& (forall|j: int|
        0 <= j < idx.len() ==> 0 <= #[trigger] idx[j] < full.len() && full[idx[j]] == sub[j])
    &&& (forall|j1: int, j2: int| 0 <= j1 < j2 < idx.len() ==> idx[j1] < idx[j2])
}

/// `sub` picks elements of `full` at strictly increasing positions: it is a
/// subsequence of `full`, in `full`'s own order.
pub open spec fn in_order_selection(sub: Seq<Seq<char>>, full: Seq<Seq<char>>) -> bool {
    exists|idx: Seq<int>| selection_indices_ok(idx, sub, full)
}

proof fn lemma_filter_in_order(s: Seq<Seq<char>>, pred: spec_fn(Seq<char>) -> bool)
    ensures
        in_order_selection(s.filter(pred), s),
    decreases s.len(),
{
    reveal(Seq::filter);
    if s.len() == 0 {
        let idx = Seq::<int>::empty();
        assert(selection_indices_ok(idx, s.filter(pred), s));
    } else {
        let head = s.drop_last();
        lemma_filter_in_order(head, pred);
        let idx0 = choose|idx: Seq<int>| selection_indices_ok(idx, head.filter(pred), head);
        if pred(s.last()) {
            let idx1 = idx0.push(s.len() - 1);
            assert forall|j: int|
                0 <= j < idx1.len() implies 0 <= #[trigger] idx1[j] < s.len() && s[idx1[j]]
                == s.filter(pred)[j] by {
                if j < idx0.len() {
                    assert(head[idx0[j]] == head.filter(pred)[j]);
                    assert(s[idx0[j]] == head[idx0[j]]);
                } else {
                    assert(idx1[j] == s.len() - 1);
                }
            }
            assert(selection_indices_ok(idx1, s.filter(pred), s));
        } else {
            assert forall|j: int|
                0 <= j < idx0.len() implies 0 <= #[trigger] idx0[j] < s.len() && s[idx0[j]]
                == s.filter(pred)[j] by {
                assert(head[idx0[j]] == head.filter(pred)[j]);
                assert(s[idx0[j]] == head[idx0[j]]);
            }
            assert(selection_indices_ok(idx0, s.filter(pred), s));
        }
    }
}

/// A case-sensitive search returns only lines of the document, each of which
/// contains the query verbatim, and keeps the document's line order.
pub proof fn lemma_search_only_matching_lines(query: Seq<char>, text: Seq<char>)
    ensures
        forall|j: int|
            0 <= j < spec_search(query, text).len() ==> has_substring(
                #[trigger] spec_search(query, text)[j],
                query,
            ),
        forall|j: int|
            0 <= j < spec_search(query, text).len() ==> lines_of(text).contains(
                #[trigger] spec_search(query, text)[j],
            ),
        in_order_selection(spec_search(query, text), lines_of(text)),
{
    let lines = lines_of(text);
    let pred = sensitive_pred(query);
    lemma_filter_in_order(lines, pred);
    let idx = choose|idx: Seq<int>| selection_indices_ok(idx, lines.filter(pred), lines);
    assert forall|j: int| 0 <= j < spec_search(query, text).len() implies has_substring(
        #[trigger] spec_search(query, text)[j],
        query,
    ) && lines_of(text).contains(spec_search(query, text)[j]) by {
        lines.lemma_filter_pred(pred, j);
        assert(lines[idx[j]] == lines.filter(pred)[j]);
    }
}

/// A case-insensitive search returns only lines of the document — each with
/// its original, unaltered text — whose lowercase form contains the
/// lowercase form of the query, and keeps the document's line order.
pub proof fn lemma_search_case_insensitive_only_matching_lines(query: Seq<char>, text: Seq<char>)
    ensures
        forall|j: int|
            0 <= j < spec_search_case_insensitive(query, text).len() ==> has_substring(
                lower_of(#[trigger] spec_search_case_insensitive(query, text)[j]),
                lower_of(query),
            ),
        forall|j: int|
            0 <= j < spec_search_case_insensitive(query, text).len() ==> lines_of(text).contains(
                #[trigger] spec_search_case_insensitive(query, text)[j],
            ),
        in_order_selection(spec_search_case_insensitive(query, text), lines_of(text)),
{
    let lines = lines_of(text);
    let pred = insensitive_pred(query);
    lemma_filter_in_order(lines, pred);
    let idx = choose|idx: Seq<int>| selection_indices_ok(idx, lines.filter(pred), lines);
    assert forall|j: int|
        0 <= j < spec_search_case_insensitive(query, text).len() implies has_substring(
        lower_of(#[trigger] spec_search_case_insensitive(query, text)[j]),
        lower_of(query),
    ) && lines_of(text).contains(spec_search_case_insensitive(query, text)[j]) by {
        lines.lemma_filter_pred(pred, j);
        assert(lines[idx[j]] == lines.filter(pred)[j]);
    }
}

/// A case-sensitive search misses nothing: every line of the document that
/// contains the query verbatim appears in the result.
pub proof fn lemma_search_complete(query: Seq<char>, text: Seq<char>)
    ensures
        forall|i: int|
            0 <= i < lines_of(text).len() && has_substring(#[trigger] lines_of(text)[i], query)
                ==> spec_search(query, text).contains(lines_of(text)[i]),
{
    let lines = lines_of(text);
    let pred = sensitive_pred(query);
    assert forall|i: int|
        0 <= i < lines.len() && has_substring(#[trigger] lines[i], query) implies spec_search(
        query,
        text,
    ).contains(lines[i]) by {
        lines.lemma_filter_contains(pred, i);
    }
}

/// A case-insensitive search misses nothing: every line whose lowercase form
/// contains the lowercase form of the query appears in the result.
pub proof fn lemma_search_case_insensitive_complete(query: Seq<char>, text: Seq<char>)
    ensures
        forall|i: int|
            0 <= i < lines_of(text).len() && has_substring(
                lower_of(#[trigger] lines_of(text)[i]),
                lower_of(query),
            ) ==> spec_search_case_insensitive(query, text).contains(lines_of(text)[i]),
{
    let lines = lines_of(text);
    let pred = insensitive_pred(query);
    assert forall|i: int|
        0 <= i < lines.len() && has_substring(lower_of(#[trigger] lines[i]), lower_of(query))
        implies spec_search_case_insensitive(query, text).contains(lines[i]) by {
        lines.lemma_filter_contains(pred, i);
    }
}

/// The empty query is a substring of every line, so a case-sensitive search
/// for it returns the whole document, line by line.
pub proof fn lemma_empty_query_returns_all_lines(query: Seq<char>, text: Seq<char>)
    requires
        query.len() == 0,
    ensures
        spec_search(query, text) == lines_of(text),
{
    let lines = lines_of(text);
    let pred = sensitive_pred(query);
    assert forall|i: int| 0 <= i < lines.len() implies pred(#[trigger] lines[i]) by {
        lemma_empty_needle(lines[i], query);
    }
    lemma_filter_all_true(lines, pred);
}

/// An empty document has no lines, so a search over it returns nothing, in
/// either mode.
pub proof fn lemma_empty_document_yields_nothing(query: Seq<char>)
    ensures
        spec_search(query, Seq::<char>::empty()) == Seq::<Seq<char>>::empty(),
        spec_search_case_insensitive(query, Seq::<char>::empty()) == Seq::<Seq<char>>::empty(),
{
    assert(lines_of(Seq::<char>::empty()) == Seq::<Seq<char>>::empty());
    lemma_filter_empty::<Seq<char>>(sensitive_pred(query));
    lemma_filter_empty::<Seq<char>>(insensitive_pred(query));
}

/// In the case-sensitive mode a line that does not contain the query
/// verbatim — for instance one that differs from an occurrence only by
/// letter case — never appears in the result.
pub proof fn lemma_sensitive_excludes_non_matching(query: Seq<char>, text: Seq<char>, line: Seq<char>)
    requires
        !has_substring(line, query),
    ensures
        !spec_search(query, text).contains(line),
{
    let found = spec_search(query, text);
    if found.contains(line) {
        let j = choose|j: int| 0 <= j < found.len() && found[j] == line;
        lines_of(text).lemma_filter_pred(sensitive_pred(query), j);
    }
}

} // verus!
