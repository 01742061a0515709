use vstd::prelude::*;

verus! {

/// Unicode White_Space: the characters that `char::is_whitespace` accepts.
pub open spec fn is_space(c: char) -> bool {
    ||| '\t' <= c <= '\r'
    ||| c == ' '
    ||| c == '\u{85}'
    ||| c == '\u{a0}'
    ||| c == '\u{1680}'
    ||| '\u{2000}' <= c <= '\u{200a}'
    ||| c == '\u{2028}'
    ||| c == '\u{2029}'
    ||| c == '\u{202f}'
    ||| c == '\u{205f}'
    ||| c == '\u{3000}'
}

/// Position of the first `c` in `s`, or `s.len()` when `s` holds none.
pub open spec fn index_of(s: Seq<char>, c: char) -> nat
    decreases s.len(),
{
    if s.len() == 0 || s[0] == c {
        0
    } else {
        1 + index_of(s.skip(1), c)
    }
}

/// Number of leading characters of `s` that are not white space.
pub open spec fn word_len(s: Seq<char>) -> nat
    decreases s.len(),
{
    if s.len() == 0 || is_space(s[0]) {
        0
    } else {
        1 + word_len(s.skip(1))
    }
}

/// A word never runs past the end, and one starts at a non-white-space character.
pub proof fn lemma_word_len_bound(s: Seq<char>)
    ensures
        word_len(s) <= s.len(),
        s.len() > 0 && !is_space(s[0]) ==> word_len(s) > 0,
    decreases s.len(),
{
    if s.len() > 0 && !is_space(s[0]) {
        lemma_word_len_bound(s.skip(1));
    }
}

/// `l` without one trailing carriage return.
pub open spec fn strip_cr(l: Seq<char>) -> Seq<char> {
    if l.len() > 0 && l.last() == '\r' {
        l.drop_last()
    } else {
        l
    }
}

/// The lines of `s`: pieces ended by `\n` or `\r\n`; a last piece without an
/// ending counts only when it is not empty.
pub open spec fn lines_of(s: Seq<char>) -> Seq<Seq<char>>
    decreases s.len(),
{
    if s.len() == 0 {
        seq![]
    } else {
        let k = index_of(s, '\n');
        if k < s.len() {
            seq![strip_cr(s.take(k as int))] + lines_of(s.skip(k + 1 as int))
        } else {
            seq![s]
        }
    }
}

/// The maximal runs of non-white-space characters of `s`, in order.
pub open spec fn words_of(s: Seq<char>) -> Seq<Seq<char>>
    decreases s.len(),
{
    if s.len() == 0 {
        seq![]
    } else if is_space(s[0]) {
        words_of(s.skip(1))
    } else {
        let k = word_len(s);
        proof {
            lemma_word_len_bound(s);
        }
        seq![s.take(k as int)] + words_of(s.skip(k as int))
    }
}

/// `s` without leading white space.
pub open spec fn trim_start(s: Seq<char>) -> Seq<char>
    decreases s.len(),
{
    if s.len() > 0 && is_space(s[0]) {
        trim_start(s.skip(1))
    } else {
        s
    }
}

/// `s` without trailing white space.
pub open spec fn trim_end(s: Seq<char>) -> Seq<char>
    decreases s.len(),
{
    if s.len() > 0 && is_space(s.last()) {
        trim_end(s.drop_last())
    } else {
        s
    }
}

/// `s` without leading and trailing white space.
pub open spec fn trim(s: Seq<char>) -> Seq<char> {
    trim_end(trim_start(s))
}

/// The characters that a span of positions covers.
pub open spec fn span(v: Seq<char>, r: (usize, usize)) -> Seq<char> {
    v.subrange(r.0 as int, r.1 as int)
}

/// Every span in `rs` lies within `v` and covers the matching element of `parts`.
pub open spec fn spans_cover(v: Seq<char>, rs: Seq<(usize, usize)>, parts: Seq<Seq<char>>) -> bool {
    &&& rs.len() == parts.len()
    &&& forall|i: int|
        0 <= i < rs.len() ==> {
            &&& #[trigger] rs[i].0 <= rs[i].1 <= v.len()
            &&& span(v, rs[i]) == parts[i]
        }
}

proof fn lemma_index_of(s: Seq<char>, c: char, k: int)
    requires
        0 <= k <= s.len(),
        forall|j: int| 0 <= j < k ==> s[j] != c,
        k < s.len() ==> s[k] == c,
    ensures
        index_of(s, c) == k,
    decreases k,
{
    if k > 0 {
        lemma_index_of(s.skip(1), c, k - 1);
    }
}

proof fn lemma_word_len(s: Seq<char>, k: int)
    requires
        0 <= k <= s.len(),
        forall|j: int| 0 <= j < k ==> !is_space(s[j]),
        k < s.len() ==> is_space(s[k]),
    ensures
        word_len(s) == k,
    decreases k,
{
    if k > 0 {
        lemma_word_len(s.skip(1), k - 1);
    }
}

proof fn lemma_trim_start(s: Seq<char>, k: int)
    requires
        0 <= k <= s.len(),
        forall|j: int| 0 <= j < k ==> is_space(s[j]),
    ensures
        trim_start(s) == trim_start(s.skip(k)),
    decreases k,
{
    if k > 0 {
        assert(is_space(s[0]));
        lemma_trim_start(s.skip(1), k - 1);
        assert(s.skip(1).skip(k - 1) =~= s.skip(k));
    } else {
        assert(s.skip(0) =~= s);
    }
}

proof fn lemma_trim_end(s: Seq<char>, k: int)
    requires
        0 <= k <= s.len(),
        forall|j: int| k <= j < s.len() ==> is_space(s[j]),
    ensures
        trim_end(s) == trim_end(s.take(k)),
    decreases s.len() - k,
{
    if k < s.len() {
        assert(s.drop_last().take(k) =~= s.take(k));
        lemma_trim_end(s.drop_last(), k);
    } else {
        assert(s.take(k) =~= s);
    }
}

/// The characters of `s`, one element each.
pub fn chars_of(s: &str) -> (r: Vec<char>)
    ensures
        r@ == s@,
{
    let mut out: Vec<char> = Vec::new();
    for c in it: s.chars()
        invariant
            it.seq() == s@,
            out@ == it.seq().take(it.index() as int),
    {
        out.push(c);
    }
    out
}

/// The tests of `char::is_whitespace`, written out.
pub fn is_space_char(c: char) -> (r: bool)
    ensures
        r == is_space(c),
{
    ('\t' <= c && c <= '\r') || c == ' ' || c == '\u{85}' || c == '\u{a0}' || c == '\u{1680}'
        || ('\u{2000}' <= c && c <= '\u{200a}') || c == '\u{2028}' || c == '\u{2029}' || c
        == '\u{202f}' || c == '\u{205f}' || c == '\u{3000}'
}

/// Position of the first `c` between `from` and `to`, or `to`.
pub fn find_char(v: &Vec<char>, from: usize, to: usize, c: char) -> (r: usize)
    requires
        from <= to <= v.len(),
    ensures
        from <= r <= to,
        r == from + index_of(v@.subrange(from as int, to as int), c),
{
    let mut j: usize = from;
    while j < to && v[j] != c
        invariant
            from <= j <= to <= v.len(),
            forall|i: int| from <= i < j ==> v@[i] != c,
        decreases to - j,
    {
        j = j + 1;
    }
    proof {
        lemma_index_of(v@.subrange(from as int, to as int), c, j - from);
    }
    j
}

/// Spans of the lines of `v`, in order.
pub fn split_lines(v: &Vec<char>) -> (r: Vec<(usize, usize)>)
    ensures
        spans_cover(v@, r@, lines_of(v@)),
{
    let n = v.len();
    let mut out: Vec<(usize, usize)> = Vec::new();
    let ghost mut done: Seq<Seq<char>> = seq![];
    let mut p: usize = 0;
    assert(v@.subrange(0, n as int) =~= v@);
    assert(seq![] + lines_of(v@) =~= lines_of(v@));
    while p < n
        invariant
            n == v.len(),
            p <= n,
            spans_cover(v@, out@, done),
            lines_of(v@) == done + lines_of(v@.subrange(p as int, n as int)),
        decreases n - p,
    {
        let ghost rest = v@.subrange(p as int, n as int);
        let k = find_char(v, p, n, '\n');
        if k < n {
            let end = if k > p && v[k - 1] == '\r' {
                k - 1
            } else {
                k
            };
            proof {
                assert(rest.take(k - p) =~= v@.subrange(p as int, k as int));
                assert(rest.skip(k - p + 1) =~= v@.subrange(k + 1, n as int));
                assert(strip_cr(rest.take(k - p)) =~= v@.subrange(p as int, end as int));
                done = done.push(strip_cr(rest.take(k - p)));
                assert(lines_of(rest) =~= seq![strip_cr(rest.take(k - p))] + lines_of(
                    v@.subrange(k + 1, n as int),
                ));
            }
            out.push((p, end));
            p = k + 1;
        } else {
            proof {
                done = done.push(rest);
                assert(v@.subrange(n as int, n as int) =~= seq![]);
            }
            out.push((p, n));
            p = n;
        }
    }
    proof {
        assert(v@.subrange(n as int, n as int) =~= seq![]);
        assert(done + seq![] =~= done);
    }
    out
}

/// Spans of the words between `from` and `to`, in order.
pub fn split_words(v: &Vec<char>, from: usize, to: usize) -> (r: Vec<(usize, usize)>)
    requires
        from <= to <= v.len(),
    ensures
        spans_cover(v@, r@, words_of(v@.subrange(from as int, to as int))),
{
    let mut out: Vec<(usize, usize)> = Vec::new();
    let ghost mut done: Seq<Seq<char>> = seq![];
    let mut p: usize = from;
    assert(seq![] + words_of(v@.subrange(from as int, to as int)) =~= words_of(
        v@.subrange(from as int, to as int),
    ));
    while p < to
        invariant
            from <= p <= to <= v.len(),
            spans_cover(v@, out@, done),
            words_of(v@.subrange(from as int, to as int)) == done + words_of(
                v@.subrange(p as int, to as int),
            ),
        decreases to - p,
    {
        let ghost rest = v@.subrange(p as int, to as int);
        if is_space_char(v[p]) {
            assert(rest.skip(1) =~= v@.subrange(p + 1, to as int));
            p = p + 1;
        } else {
            let mut q: usize = p + 1;
            while q < to && !is_space_char(v[q])
                invariant
                    p < q <= to <= v.len(),
                    forall|i: int| p <= i < q ==> !is_space(v@[i]),
                decreases to - q,
            {
                q = q + 1;
            }
            proof {
                lemma_word_len(rest, q - p);
                assert(rest.take(q - p) =~= v@.subrange(p as int, q as int));
                assert(rest.skip(q - p) =~= v@.subrange(q as int, to as int));
                done = done.push(rest.take(q - p));
            }
            out.push((p, q));
            p = q;
        }
    }
    proof {
        assert(v@.subrange(to as int, to as int) =~= seq![]);
        assert(done + seq![] =~= done);
    }
    out
}

/// The span left of `from..to` once white space is cut from both ends.
pub fn trim_span(v: &Vec<char>, from: usize, to: usize) -> (r: (usize, usize))
    requires
        from <= to <= v.len(),
    ensures
        from <= r.0 <= r.1 <= to,
        span(v@, r) == trim(v@.subrange(from as int, to as int)),
{
    let ghost s = v@.subrange(from as int, to as int);
    let mut a: usize = from;
    while a < to && is_space_char(v[a])
        invariant
            from <= a <= to <= v.len(),
            forall|i: int| from <= i < a ==> is_space(v@[i]),
        decreases to - a,
    {
        a = a + 1;
    }
    proof {
        lemma_trim_start(s, a - from);
        assert(s.skip(a - from) =~= v@.subrange(a as int, to as int));
    }
    let ghost t = v@.subrange(a as int, to as int);
    assert(trim_start(t) == t);
    let mut b: usize = to;
    while b > a && is_space_char(v[b - 1])
        invariant
            from <= a <= b <= to <= v.len(),
            forall|i: int| b <= i < to ==> is_space(v@[i]),
        decreases b,
    {
        b = b - 1;
    }
    proof {
        lemma_trim_end(t, b - a);
        assert(t.take(b - a) =~= v@.subrange(a as int, b as int));
        let u = v@.subrange(a as int, b as int);
        assert(u.len() == 0 || !is_space(u.last()));
    }
    (a, b)
}

/// Whether the characters between `from` and `to` spell `w`.
pub fn text_eq(v: &Vec<char>, from: usize, to: usize, w: &str) -> (r: bool)
    requires
        from <= to <= v.len(),
    ensures
        r == (v@.subrange(from as int, to as int) == w@),
{
    let n = w.unicode_len();
    if to - from != n {
        return false;
    }
    let mut i: usize = 0;
    while i < n
        invariant
            n == w@.len(),
            to - from == n,
            from <= to <= v.len(),
            i <= n,
            forall|j: int| 0 <= j < i ==> v@[from + j] == w@[j],
        decreases n - i,
    {
        if v[from + i] != w.get_char(i) {
            assert(v@.subrange(from as int, to as int)[i as int] != w@[i as int]);
            return false;
        }
        i = i + 1;
    }
    assert(v@.subrange(from as int, to as int) =~= w@);
    true
}

} // verus!
