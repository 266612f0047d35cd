//! The document model: a text is a sequence of characters, split into lines
//! at newline characters; matching is contiguous substring containment.

use vstd::prelude::*;
use vstd::string::*;

verus! {

/// Position of the first newline in `text`, or `text.len()` when it has none.
pub open spec fn first_line_end(text: Seq<char>) -> int
    decreases text.len(),
{
    if text.len() == 0 {
        0
    } else if text[0] == '\n' {
        0
    } else {
        1 + first_line_end(text.drop_first())
    }
}

pub proof fn lemma_first_line_end(text: Seq<char>)
    ensures
        0 <= first_line_end(text) <= text.len(),
        forall|i: int| 0 <= i < first_line_end(text) ==> text[i] != '\n',
        first_line_end(text) < text.len() ==> text[first_line_end(text)] == '\n',
    decreases text.len(),
{
    if text.len() > 0 && text[0] != '\n' {
        lemma_first_line_end(text.drop_first());
        let k = first_line_end(text);
        assert forall|i: int| 0 <= i < k implies text[i] != '\n' by {
            if i > 0 {
                assert(text.drop_first()[i - 1] != '\n');
            }
        }
        if k < text.len() {
            assert(text.drop_first()[k - 1] == text[k]);
        }
    }
}

/// `first_line_end` is the one position that has no newline before it and
/// a newline (or the end of the text) at it.
pub proof fn lemma_first_line_end_at(text: Seq<char>, k: int)
    requires
        0 <= k <= text.len(),
        forall|i: int| 0 <= i < k ==> text[i] != '\n',
        k < text.len() ==> text[k] == '\n',
    ensures
        first_line_end(text) == k,
    decreases text.len(),
{
    if text.len() > 0 && k > 0 {
        assert(text[0] != '\n');
        assert forall|i: int| 0 <= i < k - 1 implies text.drop_first()[i] != '\n' by {
            assert(text[i + 1] != '\n');
        }
        if k - 1 < text.drop_first().len() {
            assert(text.drop_first()[k - 1] == text[k]);
        }
        lemma_first_line_end_at(text.drop_first(), k - 1);
    }
}

/// The lines of `text`: split at every newline character, the newline itself
/// belonging to no line. Whatever follows the last newline forms a final
/// line, so a text that ends in a newline gets no extra empty line, and the
/// empty text has no lines at all. No other character is treated specially;
/// in particular a carriage return before a newline stays on its line.
pub open spec fn lines_of(text: Seq<char>) -> Seq<Seq<char>>
    decreases text.len(),
    via lines_of_decreases
{
    if text.len() == 0 {
        Seq::empty()
    } else {
        let k = first_line_end(text);
        if k == text.len() {
            seq![text]
        } else {
            seq![text.take(k)] + lines_of(text.skip(k + 1))
        }
    }
}

#[via_fn]
proof fn lines_of_decreases(text: Seq<char>) {
    lemma_first_line_end(text);
}

/// `needle` occurs contiguously somewhere in `hay`; the empty needle occurs
/// in every hay.
pub open spec fn has_substring(hay: Seq<char>, needle: Seq<char>) -> bool {
    exists|i: int|
        0 <= i <= hay.len() - needle.len() && #[trigger] hay.subrange(i, i + needle.len())
            == needle
}

pub proof fn lemma_empty_needle(hay: Seq<char>, needle: Seq<char>)
    requires
        needle.len() == 0,
    ensures
        has_substring(hay, needle),
{
    assert(hay.subrange(0int, 0int + needle.len()) =~= needle);
}

/// True when the characters of `needle` appear in `hay` starting at `at`.
fn matches_at(hay: &str, needle: &str, at: usize) -> (b: bool)
    requires
        at + needle@.len() <= hay@.len(),
    ensures
        b == (hay@.subrange(at as int, at + needle@.len()) == needle@),
{
    let n: usize = hay.unicode_len();
    let m: usize = needle.unicode_len();
    let mut j: usize = 0;
    while j < m
        invariant
            j <= m,
            m == needle@.len(),
            n == hay@.len(),
            at + m <= n,
            forall|t: int| 0 <= t < j ==> hay@[at + t] == needle@[t],
        decreases m - j,
    {
        if hay.get_char(at + j) != needle.get_char(j) {
            proof {
                assert(hay@.subrange(at as int, at + m)[j as int] == hay@[at + j]);
            }
            return false;
        }
        j += 1;
    }
    proof {
        assert(hay@.subrange(at as int, at + m) =~= needle@);
    }
    true
}

/// True exactly when `needle` occurs as a contiguous substring of `hay`.
pub fn contains_substring(hay: &str, needle: &str) -> (b: bool)
    ensures
        b == has_substring(hay@, needle@),
{
    let n: usize = hay.unicode_len();
    let m: usize = needle.unicode_len();
    if m == 0 {
        proof {
            lemma_empty_needle(hay@, needle@);
        }
        return true;
    }
    if m > n {
        return false;
    }
    let limit: usize = n - m;
    let mut i: usize = 0;
    while i <= limit
        invariant
            1 <= m <= n,
            limit == n - m,
            n == hay@.len(),
            m == needle@.len(),
            i <= limit + 1,
            forall|t: int|
                0 <= t < i ==> #[trigger] hay@.subrange(t, t + needle@.len()) != needle@,
        decreases limit + 1 - i,
    {
        if matches_at(hay, needle, i) {
            return true;
        }
        i += 1;
    }
    false
}

/// First position at or after `from` that holds a newline, or the end of `s`.
fn find_line_end(s: &str, from: usize) -> (k: usize)
    requires
        from <= s@.len(),
    ensures
        from <= k <= s@.len(),
        forall|i: int| from <= i < k ==> s@[i] != '\n',
        k < s@.len() ==> s@[k as int] == '\n',
{
    let n: usize = s.unicode_len();
    let mut k: usize = from;
    while k < n
        invariant
            from <= k <= n,
            n == s@.len(),
            forall|i: int| from <= i < k ==> s@[i] != '\n',
        decreases n - k,
    {
        if s.get_char(k) == '\n' {
            return k;
        }
        k += 1;
    }
    k
}

/// Split `contents` into its lines, exactly as `lines_of` describes: at each
/// newline character, with nothing trimmed from the lines themselves.
pub fn split_lines<'a>(contents: &'a str) -> (lines: Vec<&'a str>)
    ensures
        lines.deep_view() == lines_of(contents@),
{
    let n: usize = contents.unicode_len();
    let mut lines: Vec<&'a str> = Vec::new();
    if n == 0 {
        proof {
            assert(lines.deep_view() =~= lines_of(contents@));
        }
        return lines;
    }
    let mut pos: usize = 0;
    proof {
        assert(contents@.skip(0) =~= contents@);
        assert(lines.deep_view() + lines_of(contents@) =~= lines_of(contents@));
    }
    while pos < n
        invariant
            n == contents@.len(),
            pos <= n,
            lines_of(contents@) == lines.deep_view() + lines_of(contents@.skip(pos as int)),
        decreases n - pos,
    {
        let k = find_line_end(contents, pos);
        let line = contents.substring_char(pos, k);
        let ghost prev = lines.deep_view();
        let ghost rest = contents@.skip(pos as int);
        lines.push(line);
        proof {
            assert(lines.deep_view() =~= prev.push(line@));
            assert forall|i: int| 0 <= i < k - pos implies rest[i] != '\n' by {
                assert(contents@[pos + i] != '\n');
            }
            if k - pos < rest.len() {
                assert(rest[k - pos] == contents@[k as int]);
            }
            lemma_first_line_end_at(rest, k - pos);
            if k == n {
                assert(lines_of(rest) == seq![rest]);
                assert(line@ =~= rest);
                assert(prev.push(line@) =~= prev + lines_of(rest));
                assert(lines_of(contents@.skip(n as int)) =~= Seq::<Seq<char>>::empty());
                assert(lines.deep_view() + lines_of(contents@.skip(n as int)) =~= prev + lines_of(rest));
            } else {
                assert(lines_of(rest) == seq![rest.take(k - pos)] + lines_of(rest.skip(k - pos + 1)));
                assert(line@ =~= rest.take(k - pos));
                assert(rest.skip(k - pos + 1) =~= contents@.skip(k + 1));
                assert(prev + lines_of(rest) =~= lines.deep_view() + lines_of(contents@.skip(k + 1)));
            }
        }
        if k == n {
            pos = n;
        } else {
            pos = k + 1;
        }
    }
    proof {
        assert(lines_of(contents@.skip(n as int)) =~= Seq::<Seq<char>>::empty());
        assert(lines.deep_view() + lines_of(contents@.skip(n as int)) =~= lines.deep_view());
    }
    lines
}

} // verus!
