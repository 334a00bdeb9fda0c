//! Character-level helpers: whitespace, trimming, searching and comparing.

use vstd::prelude::*;
use vstd::string::*;

verus! {

/// The Unicode `White_Space` property, which is what `char::is_whitespace` tests.
pub open spec fn is_white_space(c: char) -> bool {
    ||| ('\t' <= c && c <= '\r')
    ||| c == ' '
    ||| c == '\u{85}'
    ||| c == '\u{a0}'
    ||| c == '\u{1680}'
    ||| ('\u{2000}' <= c && c <= '\u{200a}')
    ||| c == '\u{2028}'
    ||| c == '\u{2029}'
    ||| c == '\u{202f}'
    ||| c == '\u{205f}'
    ||| c == '\u{3000}'
}

/// Drops the leading characters that satisfy `p`.
pub open spec fn strip_leading(s: Seq<char>, p: spec_fn(char) -> bool) -> Seq<char>
    decreases s.len(),
{
    if s.len() > 0 && p(s[0]) {
        strip_leading(s.drop_first(), p)
    } else {
        s
    }
}

/// Drops the trailing characters that satisfy `p`.
pub open spec fn strip_trailing(s: Seq<char>, p: spec_fn(char) -> bool) -> Seq<char>
    decreases s.len(),
{
    if s.len() > 0 && p(s.last()) {
        strip_trailing(s.drop_last(), p)
    } else {
        s
    }
}

/// `str::trim_matches` with a predicate.
pub open spec fn trim_by(s: Seq<char>, p: spec_fn(char) -> bool) -> Seq<char> {
    strip_trailing(strip_leading(s, p), p)
}

/// The characters that `str::trim` drops.
pub open spec fn white_space_pred() -> spec_fn(char) -> bool {
    |c: char| is_white_space(c)
}

/// The character that `str::trim_matches('"')` drops.
pub open spec fn quote_pred() -> spec_fn(char) -> bool {
    |c: char| c == '"'
}

/// `str::trim`.
pub open spec fn trim(s: Seq<char>) -> Seq<char> {
    trim_by(s, white_space_pred())
}

/// `str::trim_matches('"')`.
pub open spec fn trim_quotes(s: Seq<char>) -> Seq<char> {
    trim_by(s, quote_pred())
}

/// `char::is_whitespace`.
pub fn is_white_space_char(c: char) -> (r: bool)
    ensures
        r == is_white_space(c),
{
    ('\t' <= c && c <= '\r') || c == ' ' || c == '\u{85}' || c == '\u{a0}' || c == '\u{1680}'
        || ('\u{2000}' <= c && c <= '\u{200a}') || c == '\u{2028}' || c == '\u{2029}'
        || c == '\u{202f}' || c == '\u{205f}' || c == '\u{3000}'
}

/// Whether `c` is dropped by the trim of the given kind: quotes when `quotes`, whitespace otherwise.
pub open spec fn trimmed_char(quotes: bool) -> spec_fn(char) -> bool {
    if quotes {
        quote_pred()
    } else {
        white_space_pred()
    }
}

fn is_trimmed_char(quotes: bool, c: char) -> (r: bool)
    ensures
        r == (trimmed_char(quotes))(c),
{
    if quotes {
        c == '"'
    } else {
        is_white_space_char(c)
    }
}

/// The bounds, within `chars`, of the trimmed form of `chars[lo..hi]`.
pub fn trim_bounds(chars: &Vec<char>, lo: usize, hi: usize, quotes: bool) -> (r: (usize, usize))
    requires
        lo <= hi <= chars.len(),
    ensures
        lo <= r.0 <= r.1 <= hi,
        chars@.subrange(r.0 as int, r.1 as int) == trim_by(
            chars@.subrange(lo as int, hi as int),
            trimmed_char(quotes),
        ),
{
    let ghost p = trimmed_char(quotes);
    let mut i = lo;
    while i < hi && is_trimmed_char(quotes, chars[i])
        invariant
            lo <= i <= hi <= chars.len(),
            p == trimmed_char(quotes),
            strip_leading(chars@.subrange(lo as int, hi as int), p) == strip_leading(
                chars@.subrange(i as int, hi as int),
                p,
            ),
        decreases hi - i,
    {
        assert(chars@.subrange(i as int, hi as int).drop_first() =~= chars@.subrange(
            i + 1,
            hi as int,
        ));
        i = i + 1;
    }
    assert(strip_leading(chars@.subrange(i as int, hi as int), p) == chars@.subrange(
        i as int,
        hi as int,
    ));
    let mut j = hi;
    while j > i && is_trimmed_char(quotes, chars[j - 1])
        invariant
            lo <= i <= j <= hi <= chars.len(),
            p == trimmed_char(quotes),
            strip_trailing(chars@.subrange(i as int, hi as int), p) == strip_trailing(
                chars@.subrange(i as int, j as int),
                p,
            ),
        decreases j - i,
    {
        assert(chars@.subrange(i as int, j as int).drop_last() =~= chars@.subrange(
            i as int,
            j - 1,
        ));
        j = j - 1;
    }
    (i, j)
}


/// `i` is the position of the first `c` in `s`.
pub open spec fn is_first_index(s: Seq<char>, c: char, i: int) -> bool {
    &&& 0 <= i < s.len()
    &&& s[i] == c
    &&& forall|k: int| 0 <= k < i ==> s[k] != c
}

/// The position of the first `c` in `s`, as `str::find` gives it.
pub open spec fn first_index_of(s: Seq<char>, c: char) -> Option<int> {
    if exists|i: int| is_first_index(s, c, i) {
        Some(choose|i: int| is_first_index(s, c, i))
    } else {
        None
    }
}

/// There is one first position.
pub proof fn lemma_first_index_unique(s: Seq<char>, c: char, i: int)
    requires
        is_first_index(s, c, i),
    ensures
        first_index_of(s, c) == Some(i),
{
    let j = choose|j: int| is_first_index(s, c, j);
    assert(is_first_index(s, c, j));
    if j < i {
        assert(s[j] != c);
    } else if i < j {
        assert(s[i] != c);
    }
}

/// The pieces of `s` between the separators, as `str::split` with a `char` gives them.
pub open spec fn split_on(s: Seq<char>, sep: char) -> Seq<Seq<char>>
    decreases s.len(),
{
    if exists|i: int| is_first_index(s, sep, i) {
        let i = choose|i: int| is_first_index(s, sep, i);
        seq![s.take(i)] + split_on(s.skip(i + 1), sep)
    } else {
        seq![s]
    }
}

/// The position, within `chars`, of the first `c` in `chars[lo..hi]`.
pub fn find_char(chars: &Vec<char>, lo: usize, hi: usize, c: char) -> (r: Option<usize>)
    requires
        lo <= hi <= chars.len(),
    ensures
        match r {
            Some(j) => lo <= j < hi && first_index_of(
                chars@.subrange(lo as int, hi as int),
                c,
            ) == Some(j - lo),
            None => first_index_of(chars@.subrange(lo as int, hi as int), c) is None,
        },
{
    let ghost sub = chars@.subrange(lo as int, hi as int);
    let mut j = lo;
    while j < hi
        invariant
            lo <= j <= hi <= chars.len(),
            sub == chars@.subrange(lo as int, hi as int),
            forall|k: int| 0 <= k < j - lo ==> sub[k] != c,
        decreases hi - j,
    {
        if chars[j] == c {
            proof {
                assert(is_first_index(sub, c, j - lo));
                lemma_first_index_unique(sub, c, j - lo);
            }
            return Some(j);
        }
        j = j + 1;
    }
    assert(!exists|i: int| is_first_index(sub, c, i));
    None
}

/// Whether `chars[lo..hi]` is the text `lit`.
pub fn range_matches(chars: &Vec<char>, lo: usize, hi: usize, lit: &str) -> (r: bool)
    requires
        lo <= hi <= chars.len(),
    ensures
        r == (chars@.subrange(lo as int, hi as int) == lit@),
{
    let n = lit.unicode_len();
    if hi - lo != n {
        return false;
    }
    let mut k: usize = 0;
    while k < n
        invariant
            lo <= hi <= chars.len(),
            hi - lo == n,
            n == lit@.len(),
            k <= n,
            forall|m: int| 0 <= m < k ==> chars@[lo + m] == lit@[m],
        decreases n - k,
    {
        if chars[lo + k] != lit.get_char(k) {
            assert(chars@.subrange(lo as int, hi as int)[k as int] != lit@[k as int]);
            return false;
        }
        k = k + 1;
    }
    assert(chars@.subrange(lo as int, hi as int) =~= lit@);
    true
}

/// Whether `chars` begins with the text `lit`.
pub fn starts_with(chars: &Vec<char>, lit: &str) -> (r: bool)
    ensures
        r == (lit@.len() <= chars@.len() && chars@.take(lit@.len() as int) == lit@),
{
    let n = lit.unicode_len();
    if n > chars.len() {
        return false;
    }
    assert(chars@.take(n as int) =~= chars@.subrange(0, n as int));
    range_matches(chars, 0, n, lit)
}

/// The characters of `s`, one by one.
pub fn chars_of(s: &str) -> (r: Vec<char>)
    ensures
        r@ == s@,
{
    let mut v: Vec<char> = Vec::new();
    for c in it: s.chars()
        invariant
            it.seq() == s@,
            v@ == it.seq().take(it.index() as int),
    {
        v.push(c);
        assert(v@ =~= it.seq().take(it.index() + 1));
    }
    assert(v@ =~= s@);
    v
}

/// `a == b` on text.
pub fn str_eq(a: &str, b: &str) -> (r: bool)
    ensures
        r == (a@ == b@),
{
    let x: String = a.to_owned();
    let y: String = b.to_owned();
    x == y
}

/// Appends one character with std's `String::push`, which, as its documentation says,
/// adds `c` to the end of the text.
#[verifier::external_body]
pub(crate) fn push_char(s: &mut String, c: char)
    ensures
        final(s)@ == old(s)@.push(c),
{
    s.push(c);
}

/// Appends `:` and then `field`.
pub fn push_field(s: &mut String, field: &str)
    ensures
        final(s)@ == old(s)@ + seq![':'] + field@,
{
    push_char(s, ':');
    s.append(field);
}

} // verus!
