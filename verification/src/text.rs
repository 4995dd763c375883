//! Character-level text handling: the few pieces of `str` behaviour that the
//! rest of the library relies on, each stated over `Seq<char>`.
use vstd::prelude::*;

verus! {

/// `char::is_whitespace`: the Unicode `White_Space` property.
pub open spec fn is_ws(c: char) -> bool {
    ||| ('\u{9}' <= c && c <= '\u{d}')
    ||| c == ' '
    ||| c == '\u{85}'
    ||| c == '\u{a0}'
    ||| c == '\u{1680}'
    ||| ('\u{2000}' <= c && c <= '\u{200a}')
    ||| c == '\u{2028}'
    ||| c == '\u{2029}'
    ||| c == '\u{202f}'
    ||| c == '\u{205f}'
    ||| c == '\u{3000}'
}

/// What `str::len` reports for `s`: the length of its UTF-8 encoding.
pub open spec fn byte_len(s: Seq<char>) -> usize {
    vstd::utf8::encode_utf8(s).len() as usize
}

/// `char::is_ascii_digit`.
pub open spec fn is_digit(c: char) -> bool {
    '0' <= c && c <= '9'
}

/// Not whitespace.
pub open spec fn not_ws(c: char) -> bool {
    !is_ws(c)
}

/// Length of the longest prefix of `s` whose characters all satisfy `p`.
pub open spec fn span(s: Seq<char>, p: spec_fn(char) -> bool) -> nat
    decreases s.len(),
{
    if s.len() > 0 && p(s[0]) {
        1 + span(s.drop_first(), p)
    } else {
        0
    }
}

/// Length of the longest suffix of `s` whose characters all satisfy `p`.
pub open spec fn rspan(s: Seq<char>, p: spec_fn(char) -> bool) -> nat
    decreases s.len(),
{
    if s.len() > 0 && p(s.last()) {
        1 + rspan(s.drop_last(), p)
    } else {
        0
    }
}

/// The span fits in `s`, all of it satisfies `p`, and the character after it
/// does not.
pub proof fn lemma_span_bounds(s: Seq<char>, p: spec_fn(char) -> bool)
    ensures
        span(s, p) <= s.len(),
        forall|i: int| 0 <= i < span(s, p) ==> #[trigger] p(s[i]),
        span(s, p) < s.len() ==> !p(s[span(s, p) as int]),
    decreases s.len(),
{
    if s.len() > 0 && p(s[0]) {
        lemma_span_bounds(s.drop_first(), p);
        assert forall|i: int| 0 <= i < span(s, p) implies #[trigger] p(s[i]) by {
            if i > 0 {
                assert(s[i] == s.drop_first()[i - 1]);
            }
        }
    }
}

/// A prefix of length `k` that satisfies `p` and is followed by the end or by a
/// character that does not is the span.
pub proof fn lemma_span_is(s: Seq<char>, p: spec_fn(char) -> bool, k: int)
    requires
        0 <= k <= s.len(),
        forall|i: int| 0 <= i < k ==> #[trigger] p(s[i]),
        k == s.len() || !p(s[k]),
    ensures
        span(s, p) == k,
    decreases s.len(),
{
    if k > 0 {
        assert(p(s[0]));
        let t = s.drop_first();
        assert forall|i: int| 0 <= i < k - 1 implies #[trigger] p(t[i]) by {
            assert(p(s[i + 1]));
        }
        if k < s.len() {
            assert(t[k - 1] == s[k]);
        }
        lemma_span_is(t, p, k - 1);
    }
}

/// A suffix of length `k` that satisfies `p` and is preceded by the start or
/// by a character that does not is the suffix span.
pub proof fn lemma_rspan_is(s: Seq<char>, p: spec_fn(char) -> bool, k: int)
    requires
        0 <= k <= s.len(),
        forall|i: int| s.len() - k <= i < s.len() ==> #[trigger] p(s[i]),
        k == s.len() || !p(s[s.len() - k - 1]),
    ensures
        rspan(s, p) == k,
    decreases s.len(),
{
    if k > 0 {
        assert(p(s[s.len() - 1]));
        let t = s.drop_last();
        assert forall|i: int| t.len() - (k - 1) <= i < t.len() implies #[trigger] p(t[i]) by {
            assert(p(s[i]));
        }
        lemma_rspan_is(t, p, k - 1);
    }
}

/// The suffix fits in `s`.
pub proof fn lemma_rspan_le(s: Seq<char>, p: spec_fn(char) -> bool)
    ensures
        rspan(s, p) <= s.len(),
    decreases s.len(),
{
    if s.len() > 0 && p(s.last()) {
        lemma_rspan_le(s.drop_last(), p);
    }
}

/// `str::trim_start`.
pub open spec fn trim_start(s: Seq<char>) -> Seq<char> {
    s.skip(span(s, |c: char| is_ws(c)) as int)
}

/// `str::trim_end`.
pub open spec fn trim_end(s: Seq<char>) -> Seq<char> {
    s.take(s.len() - rspan(s, |c: char| is_ws(c)))
}

/// `str::trim`.
pub open spec fn trim(s: Seq<char>) -> Seq<char> {
    trim_end(trim_start(s))
}

/// The characters of `s`, in order.
pub fn chars_of(s: &str) -> (r: Vec<char>)
    ensures
        r@ == s@,
{
    let mut out: Vec<char> = Vec::new();
    for c in it: s.chars()
        invariant
            out@ == it.seq().take(it.index() as int),
            it.seq() == s@,
    {
        out.push(c);
    }
    out
}

/// Calls `String::push`. Claimed: `c` is appended to `s`, nothing else
/// changes.
#[verifier::external_body]
pub(crate) fn push_char(s: &mut String, c: char)
    ensures
        final(s)@ == old(s)@.push(c),
{
    s.push(c)
}

/// A `String` holding the characters `v`.
pub fn string_of(v: &Vec<char>) -> (r: String)
    ensures
        r@ == v@,
{
    let mut out = String::new();
    let mut i: usize = 0;
    while i < v.len()
        invariant
            i <= v.len(),
            out@ == v@.take(i as int),
        decreases v.len() - i,
    {
        push_char(&mut out, v[i]);
        i += 1;
        assert(out@ =~= v@.take(i as int));
    }
    assert(v@.take(i as int) =~= v@);
    out
}

/// `char::is_whitespace`.
pub fn is_ws_char(c: char) -> (r: bool)
    ensures
        r == is_ws(c),
{
    ('\u{9}' <= c && c <= '\u{d}') || c == ' ' || c == '\u{85}' || c == '\u{a0}' || c
        == '\u{1680}' || ('\u{2000}' <= c && c <= '\u{200a}') || c == '\u{2028}' || c
        == '\u{2029}' || c == '\u{202f}' || c == '\u{205f}' || c == '\u{3000}'
}

/// Index of the first character of `v` at or after `lo` that is not whitespace
/// (or `v.len()`).
pub fn skip_ws(v: &Vec<char>, lo: usize) -> (r: usize)
    requires
        lo <= v.len(),
    ensures
        lo <= r <= v.len(),
        r - lo == span(v@.skip(lo as int), |c: char| is_ws(c)),
{
    let mut i = lo;
    while i < v.len() && is_ws_char(v[i])
        invariant
            lo <= i <= v.len(),
            forall|j: int| lo <= j < i ==> is_ws(#[trigger] v@[j]),
        decreases v.len() - i,
    {
        i += 1;
    }
    proof {
        let s = v@.skip(lo as int);
        lemma_span_is(s, |c: char| is_ws(c), i - lo);
    }
    i
}

/// Index of the first whitespace character of `v` at or after `lo` (or `v.len()`).
pub fn skip_word(v: &Vec<char>, lo: usize) -> (r: usize)
    requires
        lo <= v.len(),
    ensures
        lo <= r <= v.len(),
        r - lo == span(v@.skip(lo as int), |c: char| not_ws(c)),
{
    let mut i = lo;
    while i < v.len() && !is_ws_char(v[i])
        invariant
            lo <= i <= v.len(),
            forall|j: int| lo <= j < i ==> not_ws(#[trigger] v@[j]),
        decreases v.len() - i,
    {
        i += 1;
    }
    proof {
        let s = v@.skip(lo as int);
        lemma_span_is(s, |c: char| not_ws(c), i - lo);
    }
    i
}

/// `v[a..b]` as a new vector.
pub fn copy_range(v: &Vec<char>, a: usize, b: usize) -> (r: Vec<char>)
    requires
        a <= b <= v.len(),
    ensures
        r@ == v@.subrange(a as int, b as int),
{
    let mut out: Vec<char> = Vec::new();
    let mut i = a;
    while i < b
        invariant
            a <= i <= b <= v.len(),
            out@ == v@.subrange(a as int, i as int),
        decreases b - i,
    {
        out.push(v[i]);
        i += 1;
        assert(out@ =~= v@.subrange(a as int, i as int));
    }
    out
}

/// `v[a..b]` as a `String`.
pub fn substring(v: &Vec<char>, a: usize, b: usize) -> (r: String)
    requires
        a <= b <= v.len(),
    ensures
        r@ == v@.subrange(a as int, b as int),
{
    let w = copy_range(v, a, b);
    string_of(&w)
}

/// `str::trim`.
pub fn trim_str(s: &str) -> (r: String)
    ensures
        r@ == trim(s@),
{
    let v = chars_of(s);
    let a = skip_ws(&v, 0);
    let mut b = v.len();
    while b > a && is_ws_char(v[b - 1])
        invariant
            a <= b <= v.len(),
            forall|j: int| b <= j < v.len() ==> is_ws(#[trigger] v@[j]),
        decreases b,
    {
        b -= 1;
    }
    proof {
        let t = v@.skip(a as int);
        assert(v@.skip(0) == v@);
        assert(trim_start(s@) == t);
        lemma_rspan_is(t, |c: char| is_ws(c), v.len() - b);
        assert(trim(s@) =~= v@.subrange(a as int, b as int));
    }
    substring(&v, a, b)
}

/// `str::split_whitespace`: the maximal runs of non-whitespace characters.
pub open spec fn tokens(s: Seq<char>) -> Seq<Seq<char>>
    decreases s.len(),
{
    let t = s.skip(span(s, |c: char| is_ws(c)) as int);
    if t.len() == 0 {
        seq![]
    } else {
        let n = span(t, |c: char| not_ws(c));
        proof {
            lemma_span_bounds(s, |c: char| is_ws(c));
            lemma_span_bounds(t, |c: char| not_ws(c));
        }
        seq![t.take(n as int)] + tokens(t.skip(n as int))
    }
}

/// Drops one `'\r'` at the end of `l`, if there is one.
pub open spec fn strip_cr(l: Seq<char>) -> Seq<char> {
    if l.len() > 0 && l.last() == '\r' {
        l.drop_last()
    } else {
        l
    }
}

/// `str::lines`: pieces ended by `'\n'` (the last one may lack it), with the
/// `'\n'` and, before it, one `'\r'` removed.
pub open spec fn lines(s: Seq<char>) -> Seq<Seq<char>>
    decreases s.len(),
{
    if s.len() == 0 {
        seq![]
    } else {
        let k = span(s, |c: char| c != '\n');
        proof {
            lemma_span_bounds(s, |c: char| c != '\n');
        }
        if k == s.len() {
            seq![s]
        } else {
            seq![strip_cr(s.take(k as int))] + lines(s.skip(k as int + 1))
        }
    }
}

/// A text that ends a line, followed by more text, breaks into the lines of
/// the first and then those of the second.
pub proof fn lemma_lines_append(a: Seq<char>, b: Seq<char>)
    requires
        a.len() > 0,
        a.last() == '\n',
    ensures
        lines(a + b) =~= lines(a) + lines(b),
    decreases a.len(),
{
    let s = a + b;
    let p = |c: char| c != '\n';
    lemma_span_bounds(a, p);
    let k = span(a, p) as int;
    if k == a.len() {
        assert(p(a[a.len() - 1]));
    }
    assert(k < a.len());
    assert forall|i: int| 0 <= i < k implies #[trigger] p(s[i]) by {
        assert(s[i] == a[i]);
        assert(p(a[i]));
    }
    assert(s[k] == a[k]);
    lemma_span_is(s, p, k);
    assert(s.take(k) =~= a.take(k));
    let rest = a.skip(k + 1);
    assert(s.skip(k + 1) =~= rest + b);
    if k + 1 == a.len() {
        assert(rest =~= Seq::<char>::empty());
        assert(rest + b =~= b);
        assert(lines(rest) =~= Seq::<Seq<char>>::empty());
    } else {
        assert(rest.last() == a.last());
        lemma_lines_append(rest, b);
    }
}

/// The characters of each string.
pub open spec fn views(v: Seq<String>) -> Seq<Seq<char>> {
    v.map_values(|t: String| t@)
}

/// The characters of an optional string.
pub open spec fn opt_view(o: Option<String>) -> Option<Seq<char>> {
    match o {
        Some(s) => Some(s@),
        None => None,
    }
}

/// A copy of `v`, string by string.
pub fn copy_strings(v: &Vec<String>) -> (r: Vec<String>)
    ensures
        views(r@) == views(v@),
{
    let mut out: Vec<String> = Vec::new();
    let mut i: usize = 0;
    while i < v.len()
        invariant
            i <= v.len(),
            views(out@) == views(v@.take(i as int)),
        decreases v.len() - i,
    {
        let c = v[i].clone();
        assert(c@ == v@[i as int]@);
        let ghost before = out@;
        out.push(c);
        proof {
            assert(out@ == before.push(c));
            assert(v@.take(i + 1) =~= v@.take(i as int).push(v@[i as int]));
            assert(views(out@) =~= views(before).push(c@));
            assert(views(v@.take(i + 1)) =~= views(v@.take(i as int)).push(v@[i as int]@));
        }
        i += 1;
    }
    assert(v@.take(i as int) =~= v@);
    out
}

/// `str::split_whitespace`, collected.
pub fn split_whitespace(s: &str) -> (r: Vec<String>)
    ensures
        views(r@) == tokens(s@),
{
    let v = chars_of(s);
    let mut out: Vec<String> = Vec::new();
    let mut i: usize = 0;
    assert(v@.skip(0) =~= v@);
    while i < v.len()
        invariant
            i <= v.len(),
            v@ == s@,
            views(out@) + tokens(v@.skip(i as int)) == tokens(s@),
        decreases v.len() - i,
    {
        let a = skip_ws(&v, i);
        proof {
            assert(v@.skip(i as int).skip(a - i) =~= v@.skip(a as int));
        }
        if a == v.len() {
            proof {
                assert(tokens(v@.skip(i as int)) == Seq::<Seq<char>>::empty());
                assert(views(out@) + Seq::<Seq<char>>::empty() =~= views(out@));
            }
            i = a;
        } else {
        let b = skip_word(&v, a);
        proof {
            lemma_span_bounds(v@.skip(i as int), |c: char| is_ws(c));
            assert(v@.skip(i as int)[a - i] == v@[a as int]);
            assert(v@.skip(a as int)[0] == v@[a as int]);
            assert(b > a);
            assert(v@.skip(a as int).take(b - a) =~= v@.subrange(a as int, b as int));
            assert(v@.skip(a as int).skip(b - a) =~= v@.skip(b as int));
        }
        let w = substring(&v, a, b);
        let ghost old_out = out@;
        out.push(w);
        proof {
            assert(views(out@) =~= views(old_out).push(v@.subrange(a as int, b as int)));
            assert(views(out@) + tokens(v@.skip(b as int)) =~= views(old_out) + tokens(
                v@.skip(i as int),
            ));
        }
        i = b;
        }
    }
    proof {
        assert(v@.skip(i as int).len() == 0);
        assert(tokens(v@.skip(i as int)) == Seq::<Seq<char>>::empty());
        assert(views(out@) + Seq::<Seq<char>>::empty() =~= views(out@));
    }
    out
}

/// Index of the first `'\n'` of `v` at or after `lo` (or `v.len()`).
pub fn find_newline(v: &Vec<char>, lo: usize) -> (r: usize)
    requires
        lo <= v.len(),
    ensures
        lo <= r <= v.len(),
        r - lo == span(v@.skip(lo as int), |c: char| c != '\n'),
{
    let mut i = lo;
    while i < v.len() && v[i] != '\n'
        invariant
            lo <= i <= v.len(),
            forall|j: int| lo <= j < i ==> #[trigger] v@[j] != '\n',
        decreases v.len() - i,
    {
        i += 1;
    }
    proof {
        lemma_span_is(v@.skip(lo as int), |c: char| c != '\n', i - lo);
    }
    i
}

/// `str::lines`, collected.
pub fn lines_of(s: &str) -> (r: Vec<String>)
    ensures
        views(r@) == lines(s@),
{
    let v = chars_of(s);
    let mut out: Vec<String> = Vec::new();
    let mut i: usize = 0;
    assert(v@.skip(0) =~= v@);
    while i < v.len()
        invariant
            i <= v.len(),
            v@ == s@,
            views(out@) + lines(v@.skip(i as int)) == lines(s@),
        decreases v.len() - i,
    {
        let k = find_newline(&v, i);
        let ghost rest = v@.skip(i as int);
        let ghost old_out = out@;
        if k == v.len() {
            let w = substring(&v, i, k);
            out.push(w);
            proof {
                assert(v@.subrange(i as int, k as int) =~= rest);
                assert(views(out@) =~= views(old_out).push(rest));
                assert(v@.skip(k as int).len() == 0);
                assert(lines(v@.skip(k as int)) == Seq::<Seq<char>>::empty());
                assert(views(out@) + lines(v@.skip(k as int)) =~= views(old_out) + lines(rest));
            }
            i = k;
        } else {
            let end = if k > i && v[k - 1] == '\r' {
                k - 1
            } else {
                k
            };
            let w = substring(&v, i, end);
            out.push(w);
            proof {
                assert(rest.take(k - i) =~= v@.subrange(i as int, k as int));
                assert(strip_cr(rest.take(k - i)) =~= v@.subrange(i as int, end as int));
                assert(rest.skip(k - i + 1) =~= v@.skip(k + 1));
                assert(views(out@) =~= views(old_out).push(v@.subrange(i as int, end as int)));
                assert(views(out@) + lines(v@.skip(k + 1)) =~= views(old_out) + lines(rest));
            }
            i = k + 1;
        }
    }
    proof {
        assert(v@.skip(i as int).len() == 0);
        assert(lines(v@.skip(i as int)) == Seq::<Seq<char>>::empty());
        assert(views(out@) + Seq::<Seq<char>>::empty() =~= views(out@));
    }
    out
}

/// Whether `a[lo..]` begins with `p`.
pub fn has_prefix_at(a: &Vec<char>, lo: usize, p: &Vec<char>) -> (r: bool)
    requires
        lo <= a.len(),
    ensures
        r == p@.is_prefix_of(a@.skip(lo as int)),
{
    if p.len() > a.len() - lo {
        return false;
    }
    let mut i: usize = 0;
    while i < p.len()
        invariant
            i <= p.len(),
            p.len() <= a.len() - lo,
            forall|j: int| 0 <= j < i ==> p@[j] == a@[lo + j],
        decreases p.len() - i,
    {
        if p[i] != a[lo + i] {
            assert(a@.skip(lo as int)[i as int] == a@[lo + i]);
            return false;
        }
        i += 1;
    }
    assert(a@.skip(lo as int).take(p.len() as int) =~= p@);
    true
}

/// `str::starts_with` with a string pattern.
pub fn starts_with(s: &str, p: &str) -> (r: bool)
    ensures
        r == p@.is_prefix_of(s@),
{
    let a = chars_of(s);
    let b = chars_of(p);
    assert(a@.skip(0) =~= a@);
    has_prefix_at(&a, 0, &b)
}

/// `str::ends_with` with a string pattern.
pub fn ends_with(s: &str, p: &str) -> (r: bool)
    ensures
        r == p@.is_suffix_of(s@),
{
    let a = chars_of(s);
    let b = chars_of(p);
    if b.len() > a.len() {
        return false;
    }
    let lo = a.len() - b.len();
    let r = has_prefix_at(&a, lo, &b);
    assert(a@.skip(lo as int).take(b.len() as int) =~= a@.subrange(lo as int, a.len() as int));
    r
}

/// `==` on string slices.
pub fn str_eq(s: &str, p: &str) -> (r: bool)
    ensures
        r == (s@ == p@),
{
    let a = chars_of(s);
    let b = chars_of(p);
    if a.len() != b.len() {
        return false;
    }
    assert(a@.skip(0) =~= a@);
    let r = has_prefix_at(&a, 0, &b);
    if r {
        assert(a@.take(b.len() as int) =~= a@);
    }
    r
}

/// Whether `p` occurs in `s` at position `i`.
pub open spec fn occurs_at(s: Seq<char>, p: Seq<char>, i: int) -> bool {
    0 <= i && i + p.len() <= s.len() && s.subrange(i, i + p.len()) == p
}

/// `str::contains` with a string pattern.
pub open spec fn contains(s: Seq<char>, p: Seq<char>) -> bool {
    exists|i: int| occurs_at(s, p, i)
}

/// Position of the first occurrence of `p` in `a`, at or after `lo`.
pub fn find_at(a: &Vec<char>, lo: usize, p: &Vec<char>) -> (r: Option<usize>)
    requires
        lo <= a.len(),
    ensures
        match r {
            Some(i) => lo <= i && occurs_at(a@, p@, i as int) && forall|j: int|
                lo <= j < i ==> !occurs_at(a@, p@, j),
            None => forall|j: int| lo <= j ==> !occurs_at(a@, p@, j),
        },
{
    if p.len() > a.len() {
        return None;
    }
    let last = a.len() - p.len();
    let mut i = lo;
    while i <= last
        invariant
            lo <= i,
            last == a.len() - p.len(),
            forall|j: int| lo <= j < i ==> !occurs_at(a@, p@, j),
        decreases last + 1 - i,
    {
        if has_prefix_at(a, i, p) {
            assert(a@.skip(i as int).take(p.len() as int) =~= a@.subrange(
                i as int,
                i + p.len(),
            ));
            return Some(i);
        }
        proof {
            if occurs_at(a@, p@, i as int) {
                assert(a@.skip(i as int).take(p.len() as int) =~= a@.subrange(
                    i as int,
                    i + p.len(),
                ));
            }
        }
        i += 1;
    }
    None
}

/// `str::contains` with a string pattern.
pub fn str_contains(s: &str, p: &str) -> (r: bool)
    ensures
        r == contains(s@, p@),
{
    let a = chars_of(s);
    let b = chars_of(p);
    match find_at(&a, 0, &b) {
        Some(_) => true,
        None => false,
    }
}

/// The value of a string of decimal digits.
pub open spec fn digits_value(s: Seq<char>) -> nat
    decreases s.len(),
{
    if s.len() == 0 {
        0
    } else {
        digits_value(s.drop_last()) * 10 + ((s.last() as u32) - ('0' as u32)) as nat
    }
}

/// Every character of `s` is an ASCII digit.
pub open spec fn all_digits(s: Seq<char>) -> bool {
    forall|i: int| 0 <= i < s.len() ==> is_digit(#[trigger] s[i])
}

/// What `from_str` of an unsigned integer type reads, before the bound: an
/// optional `'+'` followed by one or more ASCII digits.
pub open spec fn parse_nat(s: Seq<char>) -> Option<nat> {
    let d = if s.len() > 0 && s[0] == '+' {
        s.drop_first()
    } else {
        s
    };
    if d.len() > 0 && all_digits(d) {
        Some(digits_value(d))
    } else {
        None
    }
}

/// `u64::from_str`.
pub open spec fn parse_u64_spec(s: Seq<char>) -> Option<u64> {
    match parse_nat(s) {
        Some(n) => if n <= u64::MAX {
            Some(n as u64)
        } else {
            None
        },
        None => None,
    }
}

/// `usize::from_str`.
pub open spec fn parse_usize_spec(s: Seq<char>) -> Option<usize> {
    match parse_nat(s) {
        Some(n) => if n <= usize::MAX {
            Some(n as usize)
        } else {
            None
        },
        None => None,
    }
}

/// A prefix of a digit string is worth no more than the whole string.
pub proof fn lemma_digits_value_grows(s: Seq<char>, i: int)
    requires
        0 <= i <= s.len(),
        all_digits(s),
    ensures
        digits_value(s.take(i)) <= digits_value(s),
    decreases s.len() - i,
{
    if i < s.len() {
        lemma_digits_value_grows(s, i + 1);
        assert(s.take(i + 1).drop_last() =~= s.take(i));
        assert(is_digit(s[i]));
    } else {
        assert(s.take(i) =~= s);
    }
}

/// `u64::from_str`.
pub fn parse_u64(s: &str) -> (r: Option<u64>)
    ensures
        r == parse_u64_spec(s@),
{
    let v = chars_of(s);
    let start: usize = if v.len() > 0 && v[0] == '+' {
        1
    } else {
        0
    };
    let ghost d = if s@.len() > 0 && s@[0] == '+' {
        s@.drop_first()
    } else {
        s@
    };
    assert(d =~= v@.skip(start as int));
    if start >= v.len() {
        return None;
    }
    let mut acc: u64 = 0;
    let mut i = start;
    while i < v.len()
        invariant
            start <= i <= v.len(),
            start < v.len(),
            v@ == s@,
            d == v@.skip(start as int),
            d == (if s@.len() > 0 && s@[0] == '+' {
                s@.drop_first()
            } else {
                s@
            }),
            forall|j: int| 0 <= j < i - start ==> is_digit(#[trigger] d[j]),
            acc == digits_value(d.take(i - start)),
        decreases v.len() - i,
    {
        let c = v[i];
        assert(d[i - start] == c);
        if !('0' <= c && c <= '9') {
            return None;
        }
        let dv: u64 = (c as u32 - '0' as u32) as u64;
        assert(d.take(i - start + 1).drop_last() =~= d.take(i - start));
        if acc > (u64::MAX - dv) / 10 {
            proof {
                assert(d.take(i - start + 1).last() == c);
                assert(digits_value(d.take(i - start + 1)) == acc * 10 + dv);
                if all_digits(d) {
                    lemma_digits_value_grows(d, i - start + 1);
                }
            }
            return None;
        }
        acc = acc * 10 + dv;
        i += 1;
    }
    assert(d.take(i - start) =~= d);
    Some(acc)
}

/// `usize::from_str`.
pub fn parse_usize(s: &str) -> (r: Option<usize>)
    ensures
        r == parse_usize_spec(s@),
{
    match parse_u64(s) {
        Some(n) => if n <= usize::MAX as u64 {
            Some(n as usize)
        } else {
            None
        },
        None => {
            proof {
                if let Some(n) = parse_nat(s@) {
                    assert(n > u64::MAX);
                }
            }
            None
        },
    }
}

/// The ASCII digit for `d < 10`.
pub open spec fn digit_char(d: nat) -> char {
    (('0' as u32) + d) as char
}

/// `n` written in decimal, as `Display` writes an unsigned integer.
pub open spec fn decimal(n: nat) -> Seq<char>
    decreases n,
{
    if n < 10 {
        seq![digit_char(n)]
    } else {
        decimal(n / 10).push(digit_char(n % 10))
    }
}

/// Reading a number written in decimal gives the number back.
pub proof fn law_decimal_reads_back(n: nat)
    ensures
        parse_nat(decimal(n)) == Some(n),
        decimal(n).len() > 0,
        all_digits(decimal(n)),
    decreases n,
{
    let d = decimal(n);
    if n < 10 {
        assert(d.len() == 1);
        assert(d.drop_last() =~= Seq::<char>::empty());
        assert(digits_value(d.drop_last()) == 0);
        assert(digit_char(n) as u32 == 48 + n);
        assert(('0' as u32) == 48);
        assert(d.last() == digit_char(n));
        assert(digits_value(d) == n);
    } else {
        law_decimal_reads_back(n / 10);
        assert(d.drop_last() == decimal(n / 10));
        assert(decimal(n / 10)[0] != '+');
        assert(digits_value(decimal(n / 10)) == n / 10);
        assert(digit_char(n % 10) as u32 == 48 + n % 10);
        assert(d.last() == digit_char(n % 10));
        assert(n == (n / 10) * 10 + n % 10);
        assert(digits_value(d) == n);
        assert forall|i: int| 0 <= i < d.len() implies is_digit(#[trigger] d[i]) by {
            if i < d.len() - 1 {
                assert(d[i] == decimal(n / 10)[i]);
            }
        }
    }
    assert(d[0] != '+');
}

/// The decimal digits of `n`.
pub fn decimal_chars(n: u64) -> (r: Vec<char>)
    ensures
        r@ == decimal(n as nat),
    decreases n,
{
    let d = (n % 10) as u8;
    let c = (48u8 + d) as char;
    assert(c == digit_char((n % 10) as nat)) by {
        assert((48u8 + d) as u32 == ('0' as u32) + (n % 10));
    }
    if n < 10 {
        let mut v: Vec<char> = Vec::new();
        v.push(c);
        v
    } else {
        let mut v = decimal_chars(n / 10);
        v.push(c);
        v
    }
}

/// Appends `n` in decimal to `out`.
pub fn push_decimal(out: &mut String, n: u64)
    ensures
        final(out)@ == old(out)@ + decimal(n as nat),
{
    let v = decimal_chars(n);
    let t = string_of(&v);
    out.append(t.as_str());
}

/// `s.rsplit('/').next()`: what follows the last `'/'` (all of `s` without one).
pub open spec fn after_last_slash(s: Seq<char>) -> Seq<char> {
    s.skip(s.len() - rspan(s, |c: char| c != '/'))
}

/// `s.rsplit('\\').next()`.
pub open spec fn after_last_backslash(s: Seq<char>) -> Seq<char> {
    s.skip(s.len() - rspan(s, |c: char| c != '\\'))
}

/// `s.rsplit(['/', '\\']).next()`.
pub open spec fn after_last_separator(s: Seq<char>) -> Seq<char> {
    s.skip(s.len() - rspan(s, |c: char| c != '/' && c != '\\'))
}

/// What follows the last `'/'` of `s`.
pub fn after_last_slash_of(s: &str) -> (r: String)
    ensures
        r@ == after_last_slash(s@),
{
    let v = chars_of(s);
    let mut i = v.len();
    while i > 0 && v[i - 1] != '/'
        invariant
            i <= v.len(),
            forall|j: int| i <= j < v.len() ==> #[trigger] v@[j] != '/',
        decreases i,
    {
        i -= 1;
    }
    proof {
        lemma_rspan_is(v@, |c: char| c != '/', v.len() - i);
        assert(v@.subrange(i as int, v.len() as int) =~= v@.skip(i as int));
    }
    substring(&v, i, v.len())
}

/// What follows the last `'\\'` of `s`.
pub fn after_last_backslash_of(s: &str) -> (r: String)
    ensures
        r@ == after_last_backslash(s@),
{
    let v = chars_of(s);
    let mut i = v.len();
    while i > 0 && v[i - 1] != '\\'
        invariant
            i <= v.len(),
            forall|j: int| i <= j < v.len() ==> #[trigger] v@[j] != '\\',
        decreases i,
    {
        i -= 1;
    }
    proof {
        lemma_rspan_is(v@, |c: char| c != '\\', v.len() - i);
        assert(v@.subrange(i as int, v.len() as int) =~= v@.skip(i as int));
    }
    substring(&v, i, v.len())
}

/// What follows the last `'/'` or `'\\'` of `s`.
pub fn after_last_separator_of(s: &str) -> (r: String)
    ensures
        r@ == after_last_separator(s@),
{
    let v = chars_of(s);
    let mut i = v.len();
    while i > 0 && v[i - 1] != '/' && v[i - 1] != '\\'
        invariant
            i <= v.len(),
            forall|j: int| i <= j < v.len() ==> #[trigger] v@[j] != '/' && v@[j] != '\\',
        decreases i,
    {
        i -= 1;
    }
    proof {
        lemma_rspan_is(v@, |c: char| c != '/' && c != '\\', v.len() - i);
        assert(v@.subrange(i as int, v.len() as int) =~= v@.skip(i as int));
    }
    substring(&v, i, v.len())
}

/// `s.trim_start_matches(p)` for a string `p`: `p` removed from the front as
/// many times as it is there.
pub open spec fn strip_prefixes(s: Seq<char>, p: Seq<char>) -> Seq<char>
    decreases s.len(),
{
    if p.len() > 0 && p.is_prefix_of(s) {
        strip_prefixes(s.skip(p.len() as int), p)
    } else {
        s
    }
}

/// `s.trim_end_matches(p)` for a string `p`.
pub open spec fn strip_suffixes(s: Seq<char>, p: Seq<char>) -> Seq<char>
    decreases s.len(),
{
    if p.len() > 0 && p.is_suffix_of(s) {
        strip_suffixes(s.take(s.len() - p.len()), p)
    } else {
        s
    }
}

/// `s.trim_matches(c)` for a character `c`.
pub open spec fn trim_char(s: Seq<char>, c: char) -> Seq<char> {
    let t = s.skip(span(s, equals(c)) as int);
    t.take(t.len() - rspan(t, equals(c)))
}

/// The test for one character.
pub open spec fn equals(c: char) -> spec_fn(char) -> bool {
    |x: char| x == c
}

/// `str::trim_start_matches` with a string pattern.
pub fn strip_prefixes_of(s: &str, p: &str) -> (r: String)
    ensures
        r@ == strip_prefixes(s@, p@),
{
    let v = chars_of(s);
    let pv = chars_of(p);
    let mut i: usize = 0;
    assert(v@.skip(0) =~= v@);
    if pv.len() > 0 {
        while has_prefix_at(&v, i, &pv)
            invariant
                i <= v.len(),
                pv@ == p@,
                pv.len() > 0,
                strip_prefixes(v@.skip(i as int), p@) == strip_prefixes(s@, p@),
            decreases v.len() - i,
        {
            assert(v@.skip(i as int).skip(pv.len() as int) =~= v@.skip(i + pv.len()));
            i = i + pv.len();
        }
    }
    assert(v@.subrange(i as int, v.len() as int) =~= v@.skip(i as int));
    substring(&v, i, v.len())
}

/// `str::trim_end_matches` with a string pattern.
pub fn strip_suffixes_of(s: &str, p: &str) -> (r: String)
    ensures
        r@ == strip_suffixes(s@, p@),
{
    let v = chars_of(s);
    let pv = chars_of(p);
    let mut n: usize = v.len();
    assert(v@.take(n as int) =~= v@);
    if pv.len() > 0 {
        while n >= pv.len() && has_prefix_at(&v, n - pv.len(), &pv)
            invariant
                n <= v.len(),
                pv@ == p@,
                pv.len() > 0,
                strip_suffixes(v@.take(n as int), p@) == strip_suffixes(s@, p@),
            decreases n,
        {
            proof {
                let t = v@.take(n as int);
                assert(v@.skip(n - pv.len()).take(pv.len() as int) =~= t.subrange(
                    t.len() - pv.len(),
                    t.len() as int,
                ));
                assert(t.take(t.len() - pv.len()) =~= v@.take(n - pv.len()));
            }
            n = n - pv.len();
        }
        proof {
            let t = v@.take(n as int);
            if p@.is_suffix_of(t) {
                assert(v@.skip(n - pv.len()).take(pv.len() as int) =~= t.subrange(
                    t.len() - pv.len(),
                    t.len() as int,
                ));
            }
        }
    }
    substring(&v, 0, n)
}

/// `str::trim_matches` with a character pattern.
pub fn trim_char_of(s: &str, c: char) -> (r: String)
    ensures
        r@ == trim_char(s@, c),
{
    let v = chars_of(s);
    let mut a: usize = 0;
    while a < v.len() && v[a] == c
        invariant
            a <= v.len(),
            forall|j: int| 0 <= j < a ==> #[trigger] v@[j] == c,
        decreases v.len() - a,
    {
        a += 1;
    }
    let mut b = v.len();
    while b > a && v[b - 1] == c
        invariant
            a <= b <= v.len(),
            forall|j: int| b <= j < v.len() ==> #[trigger] v@[j] == c,
        decreases b,
    {
        b -= 1;
    }
    proof {
        lemma_span_is(v@, equals(c), a as int);
        let t = v@.skip(a as int);
        assert forall|j: int| t.len() - (v.len() - b) <= j < t.len() implies #[trigger] t[j]
            == c by {
            assert(t[j] == v@[a + j]);
        }
        if b > a {
            assert(t[t.len() - (v.len() - b) - 1] == v@[b - 1]);
        }
        lemma_rspan_is(t, equals(c), v.len() - b);
        assert(t.take(t.len() - (v.len() - b)) =~= v@.subrange(a as int, b as int));
    }
    substring(&v, a, b)
}

/// What `str::to_lowercase` gives for `s`.
pub uninterp spec fn lowercase(s: Seq<char>) -> Seq<char>;

/// ASCII lowercase of one character.
pub open spec fn ascii_lower(c: char) -> char {
    if 'A' <= c && c <= 'Z' {
        ((c as u32) + 32) as char
    } else {
        c
    }
}

/// Every character of `s` through `ascii_lower`.
pub open spec fn ascii_lowercase(s: Seq<char>) -> Seq<char> {
    s.map_values(|c: char| ascii_lower(c))
}

/// `str::to_lowercase`: for an ASCII string its ASCII letters in lower case,
/// for any other string the Unicode mapping named `lowercase`.
pub open spec fn lower(s: Seq<char>) -> Seq<char> {
    if vstd::utf8::is_ascii_chars(s) {
        ascii_lowercase(s)
    } else {
        lowercase(s)
    }
}

/// Calls `str::to_lowercase`. Claimed: the result's characters are
/// `lowercase` of the argument's, and for an ASCII argument that is the
/// argument with `A` to `Z` made `a` to `z` (Unicode maps no other ASCII
/// character); what the mapping does to other characters is not stated.
#[verifier::external_body]
fn to_lowercase(s: &str) -> (r: String)
    ensures
        r@ == lowercase(s@),
        vstd::utf8::is_ascii_chars(s@) ==> r@ == ascii_lowercase(s@),
{
    s.to_lowercase()
}

/// `str::to_lowercase`.
pub fn lowercase_of(s: &str) -> (r: String)
    ensures
        r@ == lower(s@),
{
    to_lowercase(s)
}

/// Lowercasing an ASCII string twice gives what lowercasing it once gives,
/// and the result is ASCII.
pub proof fn law_lower_is_stable(s: Seq<char>)
    requires
        vstd::utf8::is_ascii_chars(s),
    ensures
        vstd::utf8::is_ascii_chars(lower(s)),
        lower(lower(s)) == lower(s),
        lower(s).len() == s.len(),
{
    let l = ascii_lowercase(s);
    assert forall|i: int| 0 <= i < l.len() implies '\0' <= #[trigger] l[i] <= '\u{7f}' by {
        assert(l[i] == ascii_lower(s[i]));
    }
    assert(ascii_lowercase(l) =~= l);
}

} // verus!
