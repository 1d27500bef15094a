//! Character-level text model shared by the parsers: every string is viewed as
//! the sequence of its Unicode scalar values (`Seq<char>`).
use vstd::prelude::*;

verus! {

// ---------------------------------------------------------------------------
// Unicode character classes taken from std
// ---------------------------------------------------------------------------
/// `char::is_whitespace`: whether `c` has the Unicode `White_Space` property.
pub open spec fn unicode_whitespace(c: char) -> bool {
    ('\u{9}' <= c && c <= '\u{d}') || c == ' ' || c == '\u{85}' || c == '\u{a0}' || c == '\u{1680}' || (
    '\u{2000}' <= c && c <= '\u{200a}') || c == '\u{2028}' || c == '\u{2029}' || c == '\u{202f}' || c
        == '\u{205f}' || c == '\u{3000}'
}

/// Whether `c` is alphabetic or numeric, as `char::is_alphanumeric` decides.
pub uninterp spec fn unicode_alphanumeric(c: char) -> bool;

/// The characters that `char::to_uppercase` yields for `c`.
pub uninterp spec fn unicode_uppercase(c: char) -> Seq<char>;

/// `char::is_whitespace`.
pub(crate) fn char_is_whitespace(c: char) -> (r: bool)
    ensures
        r == unicode_whitespace(c),
{
    ('\u{9}' <= c && c <= '\u{d}') || c == ' ' || c == '\u{85}' || c == '\u{a0}' || c == '\u{1680}' || (
    '\u{2000}' <= c && c <= '\u{200a}') || c == '\u{2028}' || c == '\u{2029}' || c == '\u{202f}' || c
        == '\u{205f}' || c == '\u{3000}'
}

/// Calls `char::is_alphanumeric`; the result is named `unicode_alphanumeric(c)`.
#[verifier::external_body]
pub(crate) fn char_is_alphanumeric(c: char) -> (r: bool)
    ensures
        r == unicode_alphanumeric(c),
{
    c.is_alphanumeric()
}

/// Calls `char::to_uppercase` and collects what it yields; the result is named
/// `unicode_uppercase(c)`.  The documentation says that the iterator yields one
/// or more characters, which the contract states.
#[verifier::external_body]
pub(crate) fn char_to_uppercase(c: char) -> (r: Vec<char>)
    ensures
        r@ == unicode_uppercase(c),
        r@.len() >= 1,
{
    c.to_uppercase().collect()
}

/// `char::is_ascii_digit`.
pub open spec fn is_ascii_digit(c: char) -> bool {
    '0' <= c && c <= '9'
}

pub fn char_is_ascii_digit(c: char) -> (r: bool)
    ensures
        r == is_ascii_digit(c),
{
    '0' <= c && c <= '9'
}

// ---------------------------------------------------------------------------
// Conversions between `str` and character vectors
// ---------------------------------------------------------------------------
pub fn to_chars(s: &str) -> (r: Vec<char>)
    ensures
        r@ == s@,
{
    broadcast use vstd::string::group_string_axioms;

    let mut v: Vec<char> = Vec::new();
    for c in it: s.chars()
        invariant
            it.seq() == s@,
            v@ == it.seq().take(it.index()),
    {
        v.push(c);
    }
    v
}

/// Collects characters into a `String` through `String: FromIterator<char>`.
#[verifier::external_body]
pub(crate) fn string_from_chars(v: &[char]) -> (r: String)
    ensures
        r@ == v@,
{
    v.iter().collect()
}

pub fn str_to_string(s: &str) -> (r: String)
    ensures
        r@ == s@,
{
    let v = to_chars(s);
    string_from_chars(v.as_slice())
}

pub fn subrange_chars(s: &Vec<char>, lo: usize, hi: usize) -> (r: Vec<char>)
    requires
        lo <= hi <= s@.len(),
    ensures
        r@ == s@.subrange(lo as int, hi as int),
{
    let mut v: Vec<char> = Vec::new();
    let mut i = lo;
    while i < hi
        invariant
            lo <= i <= hi <= s@.len(),
            v@ == s@.subrange(lo as int, i as int),
        decreases hi - i,
    {
        v.push(s[i]);
        i = i + 1;
        assert(v@ =~= s@.subrange(lo as int, i as int));
    }
    v
}

pub fn append_chars(v: &mut Vec<char>, s: &Vec<char>)
    ensures
        final(v)@ == old(v)@ + s@,
{
    let mut i: usize = 0;
    let ghost start = v@;
    while i < s.len()
        invariant
            i <= s@.len(),
            v@ == start + s@.take(i as int),
        decreases s.len() - i,
    {
        v.push(s[i]);
        i = i + 1;
        assert(v@ =~= start + s@.take(i as int));
    }
    assert(s@.take(s@.len() as int) =~= s@);
}

/// String equality by contents.
pub fn str_eq(a: &str, b: &str) -> (r: bool)
    ensures
        r == (a@ == b@),
{
    chars_equal(&to_chars(a), &to_chars(b))
}

pub fn chars_equal(a: &Vec<char>, b: &Vec<char>) -> (r: bool)
    ensures
        r == (a@ == b@),
{
    if a.len() != b.len() {
        return false;
    }
    let mut i: usize = 0;
    while i < a.len()
        invariant
            a@.len() == b@.len(),
            i <= a@.len(),
            forall|j: int| 0 <= j < i ==> a@[j] == b@[j],
        decreases a.len() - i,
    {
        if a[i] != b[i] {
            return false;
        }
        i = i + 1;
    }
    assert(a@ =~= b@);
    true
}

// ---------------------------------------------------------------------------
// Searching
// ---------------------------------------------------------------------------
/// `pat` occurs in `s` at position `i`.
pub open spec fn occurs_at(s: Seq<char>, pat: Seq<char>, i: int) -> bool {
    0 <= i && i + pat.len() <= s.len() && s.subrange(i, i + pat.len()) == pat
}

/// `s` begins with `p` (`str::starts_with`).
pub open spec fn has_prefix(s: Seq<char>, p: Seq<char>) -> bool {
    occurs_at(s, p, 0)
}

/// `s` holds `pat` somewhere (`str::contains`).
pub open spec fn contains_seq(s: Seq<char>, pat: Seq<char>) -> bool {
    exists|i: int| occurs_at(s, pat, i)
}

/// The first position at or after `i` where `pat` occurs in `s`.
pub open spec fn find_from(s: Seq<char>, pat: Seq<char>, i: int) -> Option<int>
    decreases s.len() + 1 - i,
{
    if i < 0 || i + pat.len() > s.len() {
        None
    } else if occurs_at(s, pat, i) {
        Some(i)
    } else {
        find_from(s, pat, i + 1)
    }
}

/// The first position where `pat` occurs in `s` (`str::find`).
pub open spec fn find_seq(s: Seq<char>, pat: Seq<char>) -> Option<int> {
    find_from(s, pat, 0)
}

pub proof fn lemma_find_from(s: Seq<char>, pat: Seq<char>, i: int)
    requires
        0 <= i,
    ensures
        match find_from(s, pat, i) {
            Some(k) => i <= k && occurs_at(s, pat, k) && forall|j: int|
                i <= j < k ==> !occurs_at(s, pat, j),
            None => forall|j: int| i <= j ==> !occurs_at(s, pat, j),
        },
    decreases s.len() + 1 - i,
{
    if i + pat.len() > s.len() {
    } else if occurs_at(s, pat, i) {
    } else {
        lemma_find_from(s, pat, i + 1);
    }
}

pub proof fn lemma_find_contains(s: Seq<char>, pat: Seq<char>)
    ensures
        find_seq(s, pat) is Some <==> contains_seq(s, pat),
{
    lemma_find_from(s, pat, 0);
}

/// Finds the first occurrence of `pat` in `s` at or after `from`.
pub fn find_chars_from(s: &Vec<char>, pat: &Vec<char>, from: usize) -> (r: Option<usize>)
    ensures
        r == (match find_from(s@, pat@, from as int) {
            Some(k) => Some(k as usize),
            None => None::<usize>,
        }),
{
    let mut i = from;
    if pat.len() > s.len() {
        return None;
    }
    let last = s.len() - pat.len();
    while i <= last
        invariant
            pat@.len() <= s@.len(),
            s@.len() <= usize::MAX,
            last == s@.len() - pat@.len(),
            from <= i,
            find_from(s@, pat@, from as int) == find_from(s@, pat@, i as int),
        decreases last + 1 - i,
    {
        let mut j: usize = 0;
        let mut matched = true;
        while j < pat.len()
            invariant
                i <= last,
                pat@.len() <= s@.len(),
                last == s@.len() - pat@.len(),
                i + pat@.len() <= s@.len(),
                s@.len() <= usize::MAX,
                j <= pat@.len(),
                matched ==> forall|k: int| 0 <= k < j ==> s@[i + k] == pat@[k],
                !matched ==> !occurs_at(s@, pat@, i as int),
            decreases pat.len() - j,
        {
            if s[i + j] != pat[j] {
                matched = false;
                assert(s@.subrange(i as int, i + pat@.len())[j as int] != pat@[j as int]);
                j = pat.len();
            } else {
                j = j + 1;
            }
        }
        if matched {
            assert(s@.subrange(i as int, i + pat@.len()) =~= pat@);
            return Some(i);
        }
        if i == last {
            assert(find_from(s@, pat@, i + 1) is None);
            return None;
        }
        i = i + 1;
    }
    None
}

pub fn find_chars(s: &Vec<char>, pat: &Vec<char>) -> (r: Option<usize>)
    ensures
        r == (match find_seq(s@, pat@) {
            Some(k) => Some(k as usize),
            None => None::<usize>,
        }),
{
    find_chars_from(s, pat, 0)
}

pub fn contains_chars(s: &Vec<char>, pat: &Vec<char>) -> (r: bool)
    ensures
        r == contains_seq(s@, pat@),
{
    proof {
        lemma_find_contains(s@, pat@);
    }
    find_chars(s, pat).is_some()
}

pub fn starts_with_chars(s: &Vec<char>, p: &Vec<char>) -> (r: bool)
    ensures
        r == has_prefix(s@, p@),
{
    if p.len() > s.len() {
        return false;
    }
    let mut j: usize = 0;
    while j < p.len()
        invariant
            p@.len() <= s@.len(),
            j <= p@.len(),
            forall|k: int| 0 <= k < j ==> s@[k] == p@[k],
        decreases p.len() - j,
    {
        if s[j] != p[j] {
            assert(s@.subrange(0, p@.len() as int)[j as int] != p@[j as int]);
            return false;
        }
        j = j + 1;
    }
    assert(s@.subrange(0, p@.len() as int) =~= p@);
    true
}

pub fn char_count(s: &Vec<char>, c: char) -> (r: usize)
    ensures
        r == s@.filter(|x: char| x == c).len(),
{
    let mut n: usize = 0;
    let mut i: usize = 0;
    while i < s.len()
        invariant
            i <= s@.len(),
            n == s@.take(i as int).filter(|x: char| x == c).len(),
            n <= i,
        decreases s.len() - i,
    {
        proof {
            assert(s@.take(i + 1).drop_last() =~= s@.take(i as int));
            reveal(Seq::filter);
        }
        if s[i] == c {
            n = n + 1;
        }
        i = i + 1;
    }
    assert(s@.take(s@.len() as int) =~= s@);
    n
}

// ---------------------------------------------------------------------------
// Replacing
// ---------------------------------------------------------------------------
/// `str::replace`: every non-overlapping occurrence of `from`, scanning from the
/// left, is replaced by `to`.
pub open spec fn replace_all(s: Seq<char>, from: Seq<char>, to: Seq<char>) -> Seq<char>
    recommends
        from.len() > 0,
    decreases s.len(),
{
    if s.len() == 0 || from.len() == 0 {
        s
    } else if has_prefix(s, from) {
        to + replace_all(s.skip(from.len() as int), from, to)
    } else {
        seq![s[0]] + replace_all(s.skip(1), from, to)
    }
}

pub fn replace_chars(s: &Vec<char>, from: &Vec<char>, to: &Vec<char>) -> (r: Vec<char>)
    requires
        from@.len() > 0,
    ensures
        r@ == replace_all(s@, from@, to@),
{
    let mut out: Vec<char> = Vec::new();
    let mut i: usize = 0;
    assert(s@.skip(0) =~= s@);
    assert(out@ + replace_all(s@, from@, to@) =~= replace_all(s@, from@, to@));
    while i < s.len()
        invariant
            from@.len() > 0,
            i <= s@.len(),
            out@ + replace_all(s@.skip(i as int), from@, to@) == replace_all(s@, from@, to@),
        decreases s.len() - i,
    {
        let ghost rest = s@.skip(i as int);
        let mut matched = from.len() <= s.len() - i;
        let mut j: usize = 0;
        while matched && j < from.len()
            invariant
                i <= s@.len(),
                rest == s@.skip(i as int),
                s@.len() <= usize::MAX,
                j <= from@.len(),
                matched ==> i + from@.len() <= s@.len(),
                matched ==> forall|k: int| 0 <= k < j ==> s@[i + k] == from@[k],
                !matched ==> !has_prefix(rest, from@),
            decreases from.len() - j,
        {
            if s[i + j] != from[j] {
                matched = false;
                assert(rest.subrange(0, from@.len() as int)[j as int] != from@[j as int]);
                j = from.len();
            } else {
                j = j + 1;
            }
        }
        if matched {
            assert(rest.subrange(0, from@.len() as int) =~= from@);
            assert(rest.skip(from@.len() as int) =~= s@.skip(i + from@.len()));
            append_chars(&mut out, to);
            i = i + from.len();
            assert(out@ + replace_all(s@.skip(i as int), from@, to@) =~= replace_all(s@, from@, to@));
        } else {
            assert(rest.skip(1) =~= s@.skip(i + 1));
            out.push(s[i]);
            i = i + 1;
            assert(out@ + replace_all(s@.skip(i as int), from@, to@) =~= replace_all(s@, from@, to@));
        }
    }
    assert(s@.skip(i as int) =~= Seq::<char>::empty());
    assert(out@ + Seq::<char>::empty() =~= out@);
    out
}

// ---------------------------------------------------------------------------
// Whitespace
// ---------------------------------------------------------------------------
pub open spec fn trim_start(s: Seq<char>) -> Seq<char>
    decreases s.len(),
{
    if s.len() > 0 && unicode_whitespace(s[0]) {
        trim_start(s.skip(1))
    } else {
        s
    }
}

pub open spec fn trim_end(s: Seq<char>) -> Seq<char>
    decreases s.len(),
{
    if s.len() > 0 && unicode_whitespace(s.last()) {
        trim_end(s.drop_last())
    } else {
        s
    }
}

/// `str::trim`: leading and trailing whitespace removed.
pub open spec fn trim(s: Seq<char>) -> Seq<char> {
    trim_end(trim_start(s))
}

proof fn lemma_trim_start_skip(s: Seq<char>, i: int)
    requires
        0 <= i <= s.len(),
        forall|k: int| 0 <= k < i ==> unicode_whitespace(s[k]),
    ensures
        trim_start(s) == trim_start(s.skip(i)),
    decreases i,
{
    if i > 0 {
        assert(s.skip(1).skip(i - 1) =~= s.skip(i));
        lemma_trim_start_skip(s.skip(1), i - 1);
    } else {
        assert(s.skip(0) =~= s);
    }
}

proof fn lemma_trim_end_take(s: Seq<char>, i: int)
    requires
        0 <= i <= s.len(),
        forall|k: int| i <= k < s.len() ==> unicode_whitespace(s[k]),
    ensures
        trim_end(s) == trim_end(s.take(i)),
    decreases s.len() - i,
{
    if i < s.len() {
        assert(s.drop_last().take(i) =~= s.take(i));
        lemma_trim_end_take(s.drop_last(), i);
    } else {
        assert(s.take(i) =~= s);
    }
}

pub fn trim_chars(s: &Vec<char>) -> (r: Vec<char>)
    ensures
        r@ == trim(s@),
{
    let mut lo: usize = 0;
    while lo < s.len() && char_is_whitespace(s[lo])
        invariant
            lo <= s@.len(),
            forall|k: int| 0 <= k < lo ==> unicode_whitespace(s@[k]),
        decreases s.len() - lo,
    {
        lo = lo + 1;
    }
    proof {
        lemma_trim_start_skip(s@, lo as int);
    }
    let mut hi: usize = s.len();
    while hi > lo && char_is_whitespace(s[hi - 1])
        invariant
            lo <= hi <= s@.len(),
            forall|k: int| hi <= k < s@.len() ==> unicode_whitespace(s@[k]),
        decreases hi,
    {
        hi = hi - 1;
    }
    let ghost t = s@.skip(lo as int);
    proof {
        assert(trim_start(t) == t);
        assert forall|k: int| hi - lo <= k < t.len() implies unicode_whitespace(t[k]) by {
            assert(t[k] == s@[lo + k]);
        }
        lemma_trim_end_take(t, hi - lo);
        assert(t.take(hi - lo) =~= s@.subrange(lo as int, hi as int));
        if hi > lo {
            assert(t.take(hi - lo).last() == s@[hi - 1]);
        } else {
            assert(t.take(hi - lo).len() == 0);
        }
    }
    subrange_chars(s, lo, hi)
}

/// The maximal runs of non-whitespace characters of `s`, in order
/// (`str::split_whitespace`).
pub open spec fn ws_words(s: Seq<char>) -> Seq<Seq<char>>
    decreases s.len(),
{
    if s.len() == 0 {
        seq![]
    } else {
        let w = ws_words(s.drop_last());
        let c = s.last();
        if unicode_whitespace(c) {
            w
        } else if s.len() >= 2 && !unicode_whitespace(s[s.len() - 2]) {
            w.update(w.len() - 1, w.last().push(c))
        } else {
            w.push(seq![c])
        }
    }
}

/// The parts joined by single spaces (`[&str]::join(" ")`).
pub open spec fn join_space(w: Seq<Seq<char>>) -> Seq<char>
    decreases w.len(),
{
    if w.len() == 0 {
        seq![]
    } else if w.len() == 1 {
        w[0]
    } else {
        join_space(w.drop_last()) + seq![' '] + w.last()
    }
}

/// `s.split_whitespace().collect::<Vec<_>>().join(" ")`.
pub open spec fn collapse_ws(s: Seq<char>) -> Seq<char> {
    join_space(ws_words(s))
}

/// Words separated by single spaces: every whitespace character of `l` is a
/// space, and no space begins or ends it or follows another space.
pub open spec fn spaced_words(l: Seq<char>) -> bool {
    &&& forall|i: int| 0 <= i < l.len() ==> #[trigger] l[i] == ' ' || !unicode_whitespace(l[i])
    &&& l.len() > 0 ==> l[0] != ' ' && l.last() != ' '
    &&& forall|i: int, j: int| 0 <= i && j == i + 1 && j < l.len() ==> !(#[trigger] l[i] == ' ' && #[trigger] l[j] == ' ')
}

pub open spec fn plain_word(w: Seq<char>) -> bool {
    w.len() > 0 && forall|m: int| 0 <= m < w.len() ==> !unicode_whitespace(#[trigger] w[m])
}

proof fn lemma_ws_words_plain(s: Seq<char>)
    ensures
        forall|k: int| 0 <= k < ws_words(s).len() ==> plain_word(#[trigger] ws_words(s)[k]),
    decreases s.len(),
{
    if s.len() > 0 {
        lemma_ws_words_plain(s.drop_last());
        let w = ws_words(s.drop_last());
        let c = s.last();
        if !unicode_whitespace(c) {
            if s.len() >= 2 && !unicode_whitespace(s[s.len() - 2]) {
                assert(s.drop_last().last() == s[s.len() - 2]);
                lemma_ws_words_nonempty(s.drop_last());
                let u = w.update(w.len() - 1, w.last().push(c));
                assert forall|k: int| 0 <= k < u.len() implies plain_word(#[trigger] u[k]) by {
                    if k == w.len() - 1 {
                        assert(plain_word(w[k]));
                        assert forall|m: int| 0 <= m < u[k].len() implies !unicode_whitespace(#[trigger] u[k][m]) by {
                            if m < w[k].len() {
                                assert(u[k][m] == w[k][m]);
                            }
                        }
                    } else {
                        assert(u[k] == w[k]);
                    }
                }
            } else {
                let u = w.push(seq![c]);
                assert forall|k: int| 0 <= k < u.len() implies plain_word(#[trigger] u[k]) by {
                    if k < w.len() {
                        assert(u[k] == w[k]);
                    } else {
                        assert(u[k] =~= seq![c]);
                    }
                }
            }
        }
    }
}

proof fn lemma_join_space_spaced(w: Seq<Seq<char>>)
    requires
        forall|k: int| 0 <= k < w.len() ==> plain_word(#[trigger] w[k]),
    ensures
        spaced_words(join_space(w)),
        w.len() > 0 ==> join_space(w).len() > 0,
    decreases w.len(),
{
    if w.len() == 1 {
        let x = w[0];
        assert(plain_word(x));
        assert(unicode_whitespace(' '));
        assert(forall|m: int| 0 <= m < x.len() ==> #[trigger] x[m] != ' ');
    } else if w.len() > 1 {
        let p = w.drop_last();
        assert forall|k: int| 0 <= k < p.len() implies plain_word(#[trigger] p[k]) by {
            assert(p[k] == w[k]);
        }
        lemma_join_space_spaced(p);
        let a = join_space(p);
        let x = w.last();
        assert(plain_word(w[w.len() - 1]));
        assert(unicode_whitespace(' '));
        let r = a + seq![' '] + x;
        assert(join_space(w) == r);
        let n = a.len();
        assert forall|i: int| 0 <= i < r.len() implies #[trigger] r[i] == ' ' || !unicode_whitespace(r[i]) by {
            if i < n {
                assert(r[i] == a[i]);
            } else if i > n {
                assert(r[i] == x[i - n - 1]);
            }
        }
        assert forall|i: int, j: int| 0 <= i && j == i + 1 && j < r.len() implies !(#[trigger] r[i] == ' ' && #[trigger] r[j] == ' ') by {
            if j < n {
                assert(r[i] == a[i] && r[j] == a[j]);
            } else if j == n {
                assert(r[i] == a.last());
            } else if i == n {
                assert(r[j] == x[0]);
            } else {
                assert(r[j] == x[j - n - 1]);
            }
        }
        assert(r[0] == a[0]);
        assert(r.last() == x.last());
    }
}

proof fn lemma_ws_words_nonempty(s: Seq<char>)
    requires
        s.len() > 0,
        !unicode_whitespace(s.last()),
    ensures
        ws_words(s).len() > 0,
    decreases s.len(),
{
    if s.len() >= 2 && !unicode_whitespace(s[s.len() - 2]) {
        assert(s.drop_last().last() == s[s.len() - 2]);
        lemma_ws_words_nonempty(s.drop_last());
    }
}

proof fn lemma_join_space_extend(w: Seq<Seq<char>>, c: char)
    requires
        w.len() > 0,
    ensures
        join_space(w.update(w.len() - 1, w.last().push(c))) == join_space(w).push(c),
{
    let u = w.update(w.len() - 1, w.last().push(c));
    if w.len() == 1 {
    } else {
        assert(u.drop_last() =~= w.drop_last());
        assert(join_space(u) =~= join_space(w).push(c));
    }
}

proof fn lemma_join_space_push(w: Seq<Seq<char>>, x: Seq<char>)
    ensures
        join_space(w.push(x)) == (if w.len() == 0 {
            x
        } else {
            join_space(w) + seq![' '] + x
        }),
{
    assert(w.push(x).drop_last() =~= w);
}

pub fn collapse_whitespace(s: &Vec<char>) -> (r: Vec<char>)
    ensures
        r@ == collapse_ws(s@),
{
    let mut out: Vec<char> = Vec::new();
    let mut i: usize = 0;
    let mut in_word = false;
    while i < s.len()
        invariant
            i <= s@.len(),
            out@ == collapse_ws(s@.take(i as int)),
            in_word == (i > 0 && !unicode_whitespace(s@[i - 1])),
            out@.len() == 0 <==> ws_words(s@.take(i as int)).len() == 0,
        decreases s.len() - i,
    {
        let c = s[i];
        let ghost pre = s@.take(i as int);
        let ghost next = s@.take(i + 1);
        proof {
            assert(next.drop_last() =~= pre);
            assert(next.last() == c);
            if i > 0 {
                assert(next[next.len() - 2] == s@[i - 1]);
            }
        }
        if char_is_whitespace(c) {
            in_word = false;
            proof {
                if i > 0 && !unicode_whitespace(s@[i - 1]) {
                    assert(pre.last() == s@[i - 1]);
                    lemma_ws_words_nonempty(pre);
                }
            }
        } else {
            if in_word {
                proof {
                    assert(pre.last() == s@[i - 1]);
                    lemma_ws_words_nonempty(pre);
                    lemma_join_space_extend(ws_words(pre), c);
                }
                out.push(c);
            } else {
                proof {
                    lemma_join_space_push(ws_words(pre), seq![c]);
                }
                if out.len() > 0 {
                    out.push(' ');
                }
                out.push(c);
                proof {
                    assert(out@ =~= collapse_ws(next));
                }
            }
            in_word = true;
        }
        i = i + 1;
    }
    assert(s@.take(s@.len() as int) =~= s@);
    out
}

// ---------------------------------------------------------------------------
// Lines
// ---------------------------------------------------------------------------
/// The pieces of `s` between occurrences of `sep` (`str::split`), empty pieces included.
pub open spec fn split_on(s: Seq<char>, sep: char) -> Seq<Seq<char>>
    decreases s.len(),
{
    if s.len() == 0 {
        seq![seq![]]
    } else {
        let p = split_on(s.drop_last(), sep);
        if s.last() == sep {
            p.push(seq![])
        } else {
            p.update(p.len() - 1, p.last().push(s.last()))
        }
    }
}

proof fn lemma_split_on_len(s: Seq<char>, sep: char)
    ensures
        split_on(s, sep).len() >= 1,
    decreases s.len(),
{
    if s.len() > 0 {
        lemma_split_on_len(s.drop_last(), sep);
    }
}

/// Keeps the non-empty lines, in order.
pub open spec fn nonempty_lines(ls: Seq<Seq<char>>) -> Seq<Seq<char>>
    decreases ls.len(),
{
    if ls.len() == 0 {
        seq![]
    } else if ls.last().len() == 0 {
        nonempty_lines(ls.drop_last())
    } else {
        nonempty_lines(ls.drop_last()).push(ls.last())
    }
}

/// Every line that `nonempty_lines` keeps is non-empty, and it keeps them in order.
pub proof fn lemma_nonempty_lines(ls: Seq<Seq<char>>)
    ensures
        forall|i: int| 0 <= i < nonempty_lines(ls).len() ==> #[trigger] nonempty_lines(ls)[i].len() > 0,
        nonempty_lines(ls).len() <= ls.len(),
        forall|i: int|
            0 <= i < nonempty_lines(ls).len() ==> exists|j: int|
                0 <= j < ls.len() && ls[j] == #[trigger] nonempty_lines(ls)[i],
    decreases ls.len(),
{
    if ls.len() > 0 {
        lemma_nonempty_lines(ls.drop_last());
        let p = ls.drop_last();
        assert forall|i: int| 0 <= i < nonempty_lines(ls).len() implies exists|j: int|
            0 <= j < ls.len() && ls[j] == #[trigger] nonempty_lines(ls)[i] by {
            if i < nonempty_lines(p).len() {
                assert(nonempty_lines(ls)[i] == nonempty_lines(p)[i]);
                let j = choose|j: int| 0 <= j < p.len() && p[j] == nonempty_lines(p)[i];
                assert(ls[j] == p[j]);
            } else {
                assert(ls[ls.len() - 1] == nonempty_lines(ls)[i]);
            }
        }
    }
}

/// Each line with its whitespace collapsed.
pub open spec fn collapse_each(ls: Seq<Seq<char>>) -> Seq<Seq<char>> {
    Seq::new(ls.len(), |i: int| collapse_ws(ls[i]))
}

/// `s.lines().map(|l| l.split_whitespace().collect::<Vec<_>>().join(" ")).filter(|l| !l.is_empty())`.
pub open spec fn clean_lines(s: Seq<char>) -> Seq<Seq<char>> {
    nonempty_lines(collapse_each(split_on(s, '\n')))
}

/// Every line of `clean_lines` is non-empty, holds no line feed, and is made of
/// words separated by single spaces.
pub proof fn lemma_clean_lines_spaced(s: Seq<char>)
    ensures
        forall|i: int|
            0 <= i < clean_lines(s).len() ==> #[trigger] clean_lines(s)[i].len() > 0 && spaced_words(clean_lines(s)[i])
                && !clean_lines(s)[i].contains('\n'),
{
    let ls = collapse_each(split_on(s, '\n'));
    lemma_nonempty_lines(ls);
    assert forall|i: int| 0 <= i < clean_lines(s).len() implies #[trigger] clean_lines(s)[i].len() > 0 && spaced_words(
        clean_lines(s)[i],
    ) && !clean_lines(s)[i].contains('\n') by {
        let l = clean_lines(s)[i];
        let j = choose|j: int| 0 <= j < ls.len() && ls[j] == nonempty_lines(ls)[i];
        let piece = split_on(s, '\n')[j];
        lemma_ws_words_plain(piece);
        lemma_join_space_spaced(ws_words(piece));
        assert(l == collapse_ws(piece));
        assert(unicode_whitespace('\n'));
        if l.contains('\n') {
            let m = choose|m: int| 0 <= m < l.len() && l[m] == '\n';
            assert(l[m] == ' ' || !unicode_whitespace(l[m]));
        }
    }
}

proof fn lemma_ws_words_single(w: Seq<char>)
    requires
        plain_word(w),
    ensures
        ws_words(w) == seq![w],
    decreases w.len(),
{
    let c = w.last();
    assert(!unicode_whitespace(w[w.len() - 1]));
    if w.len() == 1 {
        assert(w.drop_last() =~= Seq::<char>::empty());
        assert(ws_words(w.drop_last()) =~= Seq::<Seq<char>>::empty());
        assert(seq![c] =~= w);
        assert(Seq::<Seq<char>>::empty().push(seq![c]) =~= seq![w]);
    } else {
        let p = w.drop_last();
        assert forall|m: int| 0 <= m < p.len() implies !unicode_whitespace(#[trigger] p[m]) by {
            assert(p[m] == w[m]);
        }
        lemma_ws_words_single(p);
        assert(!unicode_whitespace(w[w.len() - 2]));
        assert(p.push(c) =~= w);
        let q = seq![p];
        assert(q.len() - 1 == 0 && q.last() == p);
        assert(q.update(0, p.push(c)) =~= seq![w]);
    }
}

proof fn lemma_collapse_plain_word(w: Seq<char>)
    requires
        plain_word(w),
    ensures
        collapse_ws(w) == w,
{
    lemma_ws_words_single(w);
}

proof fn lemma_split_on_extend(s: Seq<char>, u: Seq<char>, sep: char)
    requires
        !u.contains(sep),
    ensures
        split_on(s + u, sep) == split_on(s, sep).update(
            split_on(s, sep).len() - 1,
            split_on(s, sep).last() + u,
        ),
    decreases u.len(),
{
    lemma_split_on_len(s, sep);
    let p = split_on(s, sep);
    if u.len() == 0 {
        assert(s + u =~= s);
        assert(p.last() + u =~= p.last());
        assert(p.update(p.len() - 1, p.last()) =~= p);
    } else {
        let v = u.drop_last();
        assert(!v.contains(sep)) by {
            if v.contains(sep) {
                let i = choose|i: int| 0 <= i < v.len() && v[i] == sep;
                assert(u[i] == sep);
            }
        }
        lemma_split_on_extend(s, v, sep);
        assert((s + u).drop_last() =~= s + v);
        assert((s + u).last() == u[u.len() - 1]);
        assert(u[u.len() - 1] != sep);
        let q = p.update(p.len() - 1, p.last() + v);
        assert(q.last() == p.last() + v);
        assert((p.last() + v).push(u.last()) =~= p.last() + u);
        assert(q.update(q.len() - 1, q.last().push(u.last())) =~= p.update(p.len() - 1, p.last() + u));
    }
}

/// A line break, a word, a line break and a word read as exactly those two
/// lines.
pub proof fn lemma_clean_lines_two_words(a: Seq<char>, b: Seq<char>)
    requires
        plain_word(a),
        plain_word(b),
    ensures
        clean_lines(seq!['\n'] + a + seq!['\n'] + b) == seq![a, b],
{
    assert(unicode_whitespace('\n'));
    assert(!a.contains('\n')) by {
        if a.contains('\n') {
            let i = choose|i: int| 0 <= i < a.len() && a[i] == '\n';
            assert(!unicode_whitespace(a[i]));
        }
    }
    assert(!b.contains('\n')) by {
        if b.contains('\n') {
            let i = choose|i: int| 0 <= i < b.len() && b[i] == '\n';
            assert(!unicode_whitespace(b[i]));
        }
    }
    let e = Seq::<char>::empty();
    let s1 = seq!['\n'];
    assert(s1.drop_last() =~= e);
    assert(split_on(e, '\n') == seq![e]);
    assert(split_on(s1, '\n') =~= seq![e, e]);
    lemma_split_on_extend(s1, a, '\n');
    let s2 = s1 + a;
    assert(split_on(s2, '\n') =~= seq![e, a]);
    let s3 = s2.push('\n');
    assert(s3.drop_last() =~= s2);
    assert(split_on(s3, '\n') =~= seq![e, a, e]);
    lemma_split_on_extend(s3, b, '\n');
    assert(seq!['\n'] + a + seq!['\n'] + b =~= s3 + b);
    let parts = split_on(s3 + b, '\n');
    assert(parts =~= seq![e, a, b]);
    lemma_collapse_plain_word(a);
    lemma_collapse_plain_word(b);
    assert(collapse_ws(e) == e);
    let ls = collapse_each(parts);
    assert(ls =~= seq![e, a, b]);
    assert(ls.drop_last() =~= seq![e, a]);
    assert(seq![e, a].drop_last() =~= seq![e]);
    assert(seq![e].drop_last() =~= Seq::<Seq<char>>::empty());
    assert(seq![e].last() == e && e.len() == 0);
    assert(nonempty_lines(Seq::<Seq<char>>::empty()) == Seq::<Seq<char>>::empty());
    assert(nonempty_lines(seq![e]) =~= Seq::<Seq<char>>::empty());
    assert(nonempty_lines(seq![e, a]) =~= seq![a]);
    assert(nonempty_lines(ls) =~= seq![a, b]);
}


pub fn clean_text_lines(s: &Vec<char>) -> (r: Vec<Vec<char>>)
    ensures
        r@.len() == clean_lines(s@).len(),
        forall|i: int| 0 <= i < r@.len() ==> #[trigger] r@[i]@ == clean_lines(s@)[i],
{
    let mut out: Vec<Vec<char>> = Vec::new();
    let mut cur: Vec<char> = Vec::new();
    let mut i: usize = 0;
    proof {
        assert(s@.take(0) =~= Seq::<char>::empty());
    }
    while i < s.len()
        invariant
            i <= s@.len(),
            split_on(s@.take(i as int), '\n').len() >= 1,
            cur@ == split_on(s@.take(i as int), '\n').last(),
            out@.len() == nonempty_lines(collapse_each(split_on(s@.take(i as int), '\n').drop_last())).len(),
            forall|k: int| 0 <= k < out@.len() ==> #[trigger] out@[k]@ == nonempty_lines(
                collapse_each(split_on(s@.take(i as int), '\n').drop_last()),
            )[k],
        decreases s.len() - i,
    {
        let c = s[i];
        let ghost pre = s@.take(i as int);
        let ghost next = s@.take(i + 1);
        let ghost ps = split_on(pre, '\n');
        proof {
            assert(next.drop_last() =~= pre);
            assert(next.last() == c);
            lemma_split_on_len(pre, '\n');
        }
        if c == '\n' {
            let line = collapse_whitespace(&cur);
            let ghost old_out = out@;
            proof {
                let ns = split_on(next, '\n');
                assert(ns == ps.push(seq![]));
                assert(ns.drop_last() =~= ps);
                let ce = collapse_each(ps);
                assert(ce.drop_last() =~= collapse_each(ps.drop_last()));
                assert(ce.last() == collapse_ws(cur@));
            }
            if line.len() > 0 {
                out.push(line);
            }
            cur = Vec::new();
            proof {
                let ns = split_on(next, '\n');
                assert(cur@ =~= ns.last());
            }
        } else {
            cur.push(c);
            proof {
                let ns = split_on(next, '\n');
                assert(ns.drop_last() =~= ps.drop_last());
            }
        }
        i = i + 1;
    }
    proof {
        assert(s@.take(s@.len() as int) =~= s@);
        lemma_split_on_len(s@, '\n');
    }
    let line = collapse_whitespace(&cur);
    proof {
        let ps = split_on(s@, '\n');
        let ce = collapse_each(ps);
        assert(ce.drop_last() =~= collapse_each(ps.drop_last()));
        assert(ce.last() == collapse_ws(cur@));
    }
    if line.len() > 0 {
        out.push(line);
    }
    out
}

// ---------------------------------------------------------------------------
// Numbers
// ---------------------------------------------------------------------------
pub open spec fn digit_char(d: nat) -> char
    recommends
        d < 10,
{
    if d == 0 { '0' }
    else if d == 1 { '1' }
    else if d == 2 { '2' }
    else if d == 3 { '3' }
    else if d == 4 { '4' }
    else if d == 5 { '5' }
    else if d == 6 { '6' }
    else if d == 7 { '7' }
    else if d == 8 { '8' }
    else { '9' }
}

/// The decimal representation of `n` (`Display` of an unsigned integer).
pub open spec fn decimal(n: nat) -> Seq<char>
    decreases n,
{
    if n < 10 {
        seq![digit_char(n)]
    } else {
        decimal(n / 10).push(digit_char(n % 10))
    }
}

fn digit_to_char(d: u64) -> (c: char)
    requires
        d < 10,
    ensures
        c == digit_char(d as nat),
{
    if d == 0 { '0' }
    else if d == 1 { '1' }
    else if d == 2 { '2' }
    else if d == 3 { '3' }
    else if d == 4 { '4' }
    else if d == 5 { '5' }
    else if d == 6 { '6' }
    else if d == 7 { '7' }
    else if d == 8 { '8' }
    else { '9' }
}

pub fn decimal_chars(n: u64) -> (r: Vec<char>)
    ensures
        r@ == decimal(n as nat),
    decreases n,
{
    if n < 10 {
        let mut v: Vec<char> = Vec::new();
        v.push(digit_to_char(n));
        v
    } else {
        let mut v = decimal_chars(n / 10);
        v.push(digit_to_char(n % 10));
        v
    }
}

/// The value of a sequence of ASCII digits.
pub open spec fn digits_value(s: Seq<char>) -> nat
    decreases s.len(),
{
    if s.len() == 0 {
        0
    } else {
        digits_value(s.drop_last()) * 10 + ((s.last() as nat) - ('0' as nat)) as nat
    }
}

/// What `str::parse::<usize>` accepts: an optional `+`, then one or more
/// ASCII digits whose value fits in `usize`.
pub open spec fn unsigned_digits(s: Seq<char>) -> Seq<char> {
    if s.len() > 0 && s[0] == '+' { s.skip(1) } else { s }
}

pub open spec fn all_ascii_digits(s: Seq<char>) -> bool {
    forall|i: int| 0 <= i < s.len() ==> is_ascii_digit(s[i])
}

pub open spec fn parse_usize(s: Seq<char>) -> Option<nat> {
    let digits = unsigned_digits(s);
    if digits.len() > 0 && all_ascii_digits(digits) && digits_value(digits) <= usize::MAX {
        Some(digits_value(digits))
    } else {
        None
    }
}

pub fn parse_usize_chars(s: &Vec<char>) -> (r: Option<usize>)
    ensures
        r == (match parse_usize(s@) {
            Some(v) => Some(v as usize),
            None => None::<usize>,
        }),
{
    let start: usize = if s.len() > 0 && s[0] == '+' { 1 } else { 0 };
    let ghost digits = unsigned_digits(s@);
    proof {
        if start == 1 {
            assert(digits =~= s@.skip(1));
        } else {
            assert(digits =~= s@.skip(0));
        }
    }
    if start == s.len() {
        assert(digits.len() == 0);
        return None;
    }
    let mut value: usize = 0;
    let mut i: usize = start;
    while i < s.len()
        invariant
            start <= i <= s@.len(),
            digits == s@.skip(start as int),
            digits == unsigned_digits(s@),
            digits.len() > 0,
            forall|k: int| 0 <= k < i - start ==> is_ascii_digit(digits[k]),
            value == digits_value(digits.take(i - start)),
        decreases s.len() - i,
    {
        let c = s[i];
        proof {
            assert(digits[i - start] == c);
            assert(digits.take(i - start + 1).drop_last() =~= digits.take(i - start));
        }
        if !char_is_ascii_digit(c) {
            assert(!is_ascii_digit(digits[i - start]));
            assert(!all_ascii_digits(digits));
            assert(parse_usize(s@) is None);
            return None;
        }
        let d: usize = (c as u32 - '0' as u32) as usize;
        proof {
            assert(digits.take(i - start + 1).last() == c);
            assert(digits_value(digits.take(i - start + 1)) == value * 10 + d);
        }
        if value > (usize::MAX - d) / 10 {
            proof {
                assert(digits_value(digits.take(i - start + 1)) > usize::MAX) by (nonlinear_arith)
                    requires
                        digits_value(digits.take(i - start + 1)) == value * 10 + d,
                        value > (usize::MAX - d) / 10,
                        d < 10,
                ;
                if all_ascii_digits(digits) {
                    lemma_digits_value_prefix(digits, i - start + 1);
                }
                assert(parse_usize(s@) is None);
            }
            return None;
        }
        value = value * 10 + d;
        i = i + 1;
    }
    assert(digits.take(digits.len() as int) =~= digits);
    Some(value)
}

proof fn lemma_digits_value_prefix(s: Seq<char>, k: int)
    requires
        0 <= k <= s.len(),
        forall|i: int| 0 <= i < s.len() ==> is_ascii_digit(s[i]),
    ensures
        digits_value(s.take(k)) <= digits_value(s),
    decreases s.len() - k,
{
    if k < s.len() {
        lemma_digits_value_prefix(s, k + 1);
        assert(s.take(k + 1).drop_last() =~= s.take(k));
        assert(s.take(k + 1).last() == s[k]);
    } else {
        assert(s.take(k) =~= s);
    }
}

// ---------------------------------------------------------------------------
// UTF-8 length
// ---------------------------------------------------------------------------
/// The number of bytes of `c` in UTF-8 (`char::len_utf8`).
pub open spec fn utf8_width(c: char) -> nat {
    if (c as u32) < 0x80 {
        1
    } else if (c as u32) < 0x800 {
        2
    } else if (c as u32) < 0x10000 {
        3
    } else {
        4
    }
}

/// The number of bytes of `s` in UTF-8 (`str::len`).
pub open spec fn utf8_len(s: Seq<char>) -> nat
    decreases s.len(),
{
    if s.len() == 0 {
        0
    } else {
        utf8_len(s.drop_last()) + utf8_width(s.last())
    }
}

fn utf8_width_exec(c: char) -> (r: usize)
    ensures
        r == utf8_width(c),
{
    let v = c as u32;
    if v < 0x80 {
        1
    } else if v < 0x800 {
        2
    } else if v < 0x10000 {
        3
    } else {
        4
    }
}

/// The UTF-8 length of `s`, or `cap` when it is `cap` or more.
pub fn utf8_len_capped(s: &Vec<char>, cap: usize) -> (r: usize)
    ensures
        r == (if utf8_len(s@) < cap { utf8_len(s@) } else { cap as nat }),
{
    if cap == 0 {
        return 0;
    }
    let mut n: usize = 0;
    let mut i: usize = 0;
    assert(s@.take(0) =~= Seq::<char>::empty());
    while i < s.len()
        invariant
            i <= s@.len(),
            n == utf8_len(s@.take(i as int)),
            n < cap,
        decreases s.len() - i,
    {
        proof {
            assert(s@.take(i + 1).drop_last() =~= s@.take(i as int));
        }
        let w = utf8_width_exec(s[i]);
        if w >= cap - n {
            proof {
                lemma_utf8_len_prefix(s@, i + 1);
            }
            return cap;
        }
        n = n + w;
        i = i + 1;
    }
    assert(s@.take(s@.len() as int) =~= s@);
    n
}

proof fn lemma_utf8_len_prefix(s: Seq<char>, k: int)
    requires
        0 <= k <= s.len(),
    ensures
        utf8_len(s.take(k)) <= utf8_len(s),
    decreases s.len() - k,
{
    if k < s.len() {
        lemma_utf8_len_prefix(s, k + 1);
        assert(s.take(k + 1).drop_last() =~= s.take(k));
    } else {
        assert(s.take(k) =~= s);
    }
}

} // verus!
