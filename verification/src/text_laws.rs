//! What the text helpers mean, stated without their recursive definitions:
//! the first index is the first occurrence, trimming drops exactly the
//! whitespace (or quotes) at both ends, and splitting cuts at every separator.

use vstd::prelude::*;

use crate::text::{
    first_index_of, is_first_index, is_white_space, split_on, strip_leading, strip_trailing, trim,
    trim_by, trim_quotes,
};

verus! {

/// Where `c` occurs at `k`, there is a first occurrence.
pub proof fn lemma_first_index_exists(s: Seq<char>, c: char, k: int)
    requires
        0 <= k < s.len(),
        s[k] == c,
    ensures
        exists|i: int| is_first_index(s, c, i),
    decreases k,
{
    if forall|j: int| 0 <= j < k ==> s[j] != c {
        assert(is_first_index(s, c, k));
    } else {
        let j = choose|j: int| 0 <= j < k && s[j] == c;
        lemma_first_index_exists(s, c, j);
    }
}

/// `first_index_of` gives the position of the first `c`, and nothing where `s`
/// holds no `c`.
pub proof fn law_first_index_of(s: Seq<char>, c: char)
    ensures
        match first_index_of(s, c) {
            Some(i) => 0 <= i < s.len() && s[i] == c && forall|k: int| 0 <= k < i ==> s[k] != c,
            None => forall|k: int| 0 <= k < s.len() ==> s[k] != c,
        },
{
    if first_index_of(s, c) is None {
        assert forall|k: int| 0 <= k < s.len() implies s[k] != c by {
            if s[k] == c {
                lemma_first_index_exists(s, c, k);
            }
        }
    }
}

/// Dropping the leading characters that satisfy `p` leaves `s.skip(a)`, where
/// every character before `a` satisfies `p` and the one at `a` does not.
pub proof fn lemma_strip_leading(s: Seq<char>, p: spec_fn(char) -> bool) -> (a: int)
    ensures
        0 <= a <= s.len(),
        strip_leading(s, p) == s.skip(a),
        forall|k: int| 0 <= k < a ==> p(s[k]),
        a < s.len() ==> !p(s[a]),
    decreases s.len(),
{
    if s.len() > 0 && p(s[0]) {
        let b = lemma_strip_leading(s.drop_first(), p);
        assert(s.drop_first().skip(b) =~= s.skip(b + 1));
        assert forall|k: int| 0 <= k < b + 1 implies p(s[k]) by {
            if k > 0 {
                assert(s[k] == s.drop_first()[k - 1]);
            }
        }
        b + 1
    } else {
        assert(s.skip(0) =~= s);
        0
    }
}

/// Dropping the trailing characters that satisfy `p` leaves `s.take(b)`, where
/// every character from `b` on satisfies `p` and the one before `b` does not.
pub proof fn lemma_strip_trailing(s: Seq<char>, p: spec_fn(char) -> bool) -> (b: int)
    ensures
        0 <= b <= s.len(),
        strip_trailing(s, p) == s.take(b),
        forall|k: int| b <= k < s.len() ==> p(s[k]),
        b > 0 ==> !p(s[b - 1]),
    decreases s.len(),
{
    if s.len() > 0 && p(s.last()) {
        let b = lemma_strip_trailing(s.drop_last(), p);
        assert(s.drop_last().take(b) =~= s.take(b));
        assert forall|k: int| b <= k < s.len() implies p(s[k]) by {
            if k < s.len() - 1 {
                assert(s[k] == s.drop_last()[k]);
            }
        }
        b
    } else {
        assert(s.take(s.len() as int) =~= s);
        s.len() as int
    }
}

/// Trimming by `p` keeps the part `s[a..b]` between the characters that
/// satisfy `p` at both ends; that part neither starts nor ends with one.
pub proof fn lemma_trim_by(s: Seq<char>, p: spec_fn(char) -> bool) -> (ab: (int, int))
    ensures
        0 <= ab.0 <= ab.1 <= s.len(),
        trim_by(s, p) == s.subrange(ab.0, ab.1),
        forall|k: int| 0 <= k < ab.0 ==> p(s[k]),
        forall|k: int| ab.1 <= k < s.len() ==> p(s[k]),
        ab.0 < ab.1 ==> !p(s[ab.0]) && !p(s[ab.1 - 1]),
{
    let a = lemma_strip_leading(s, p);
    let t = s.skip(a);
    let b = lemma_strip_trailing(t, p);
    assert(t.take(b) =~= s.subrange(a, a + b));
    assert forall|k: int| a + b <= k < s.len() implies p(s[k]) by {
        assert(s[k] == t[k - a]);
    }
    if a < s.len() {
        assert(t[0] == s[a]);
        if b == 0 {
            assert(p(t[0]));
        }
        assert(s[a + b - 1] == t[b - 1]);
    }
    (a, a + b)
}

/// `trim` drops exactly the whitespace at both ends: the result is a part
/// `s[a..b]` with only whitespace outside it and none at its ends.
pub proof fn law_trim(s: Seq<char>)
    ensures
        exists|a: int, b: int|
            {
                &&& 0 <= a <= b <= s.len()
                &&& trim(s) == s.subrange(a, b)
                &&& forall|k: int| 0 <= k < a ==> is_white_space(#[trigger] s[k])
                &&& forall|k: int| b <= k < s.len() ==> is_white_space(#[trigger] s[k])
                &&& a < b ==> !is_white_space(s[a]) && !is_white_space(s[b - 1])
            },
{
    let (a, b) = lemma_trim_by(s, |c: char| is_white_space(c));
    assert(trim(s) == s.subrange(a, b));
}

/// `trim_quotes` drops exactly the `"` at both ends.
pub proof fn law_trim_quotes(s: Seq<char>)
    ensures
        exists|a: int, b: int|
            {
                &&& 0 <= a <= b <= s.len()
                &&& trim_quotes(s) == s.subrange(a, b)
                &&& forall|k: int| 0 <= k < a ==> #[trigger] s[k] == '"'
                &&& forall|k: int| b <= k < s.len() ==> #[trigger] s[k] == '"'
                &&& a < b ==> s[a] != '"' && s[b - 1] != '"'
            },
{
    let (a, b) = lemma_trim_by(s, |c: char| c == '"');
    assert(trim_quotes(s) == s.subrange(a, b));
}

/// The pieces put back together with the separator between them.
pub open spec fn joined(pieces: Seq<Seq<char>>, sep: char) -> Seq<char>
    decreases pieces.len(),
{
    if pieces.len() == 0 {
        Seq::empty()
    } else if pieces.len() == 1 {
        pieces[0]
    } else {
        pieces[0] + seq![sep] + joined(pieces.drop_first(), sep)
    }
}

/// Splitting cuts `s` at every separator: there is at least one piece, no
/// piece holds the separator, and the pieces joined by it give `s` back.
pub proof fn law_split_on(s: Seq<char>, sep: char)
    ensures
        split_on(s, sep).len() >= 1,
        joined(split_on(s, sep), sep) == s,
        forall|i: int, k: int|
            0 <= i < split_on(s, sep).len() && 0 <= k < split_on(s, sep)[i].len() ==> #[trigger] split_on(
                s,
                sep,
            )[i][k] != sep,
    decreases s.len(),
{
    if exists|i: int| is_first_index(s, sep, i) {
        let i = choose|i: int| is_first_index(s, sep, i);
        let rest = s.skip(i + 1);
        law_split_on(rest, sep);
        let pieces = split_on(s, sep);
        let tail = split_on(rest, sep);
        assert(pieces == seq![s.take(i)] + tail);
        assert(pieces.drop_first() =~= tail);
        assert(joined(pieces, sep) == s.take(i) + seq![sep] + joined(tail, sep));
        assert(s.take(i) + seq![sep] + rest =~= s);
        assert forall|j: int, k: int| 0 <= j < pieces.len() && 0 <= k < pieces[j].len() implies #[trigger] pieces[j][k]
            != sep by {
            if j > 0 {
                assert(pieces[j] == tail[j - 1]);
            }
        }
    } else {
        assert forall|k: int| 0 <= k < s.len() implies s[k] != sep by {
            if s[k] == sep {
                lemma_first_index_exists(s, sep, k);
            }
        }
    }
}

} // verus!
