//! Character-level text utilities: conversions between strings and
//! character vectors, splitting on a separator, infix search and
//! whitespace trimming, each specified over `Seq<char>`.
use vstd::prelude::*;

verus! {

/// Unicode `White_Space`, the property that `char::is_whitespace` tests.
pub open spec fn is_white_space(c: char) -> bool {
    let u = c as u32;
    (0x9 <= u <= 0xd) || u == 0x20 || u == 0x85 || u == 0xa0 || u == 0x1680 || (0x2000 <= u
        <= 0x200a) || u == 0x2028 || u == 0x2029 || u == 0x202f || u == 0x205f || u == 0x3000
}

/// Whether `c` is a Unicode white-space character.
pub fn white_space(c: char) -> (r: bool)
    ensures
        r == is_white_space(c),
{
    let u = c as u32;
    (0x9 <= u && u <= 0xd) || u == 0x20 || u == 0x85 || u == 0xa0 || u == 0x1680 || (0x2000 <= u
        && u <= 0x200a) || u == 0x2028 || u == 0x2029 || u == 0x202f || u == 0x205f || u == 0x3000
}

/// `s` without its leading white space.
pub open spec fn trim_start(s: Seq<char>) -> Seq<char>
    decreases s.len(),
{
    if s.len() > 0 && is_white_space(s[0]) {
        trim_start(s.drop_first())
    } else {
        s
    }
}

/// `s` without its trailing white space.
pub open spec fn trim_end(s: Seq<char>) -> Seq<char>
    decreases s.len(),
{
    if s.len() > 0 && is_white_space(s.last()) {
        trim_end(s.drop_last())
    } else {
        s
    }
}

/// `s` without leading and trailing white space, as `str::trim` gives it.
pub open spec fn trim(s: Seq<char>) -> Seq<char> {
    trim_end(trim_start(s))
}

/// The pieces of `s` between occurrences of `sep`, as `str::split` yields
/// them: `n` separators give `n + 1` pieces, empty ones included.
pub open spec fn split_on(s: Seq<char>, sep: char) -> Seq<Seq<char>>
    decreases s.len(),
{
    if s.len() == 0 {
        seq![Seq::<char>::empty()]
    } else {
        let pieces = split_on(s.drop_last(), sep);
        if s.last() == sep {
            pieces.push(Seq::<char>::empty())
        } else {
            pieces.update(pieces.len() - 1, pieces.last().push(s.last()))
        }
    }
}

/// Whether `pat` occurs in `hay` as a contiguous run of characters.
pub open spec fn has_infix(hay: Seq<char>, pat: Seq<char>) -> bool {
    exists|k: int|
        0 <= k && k + pat.len() <= hay.len() && #[trigger] hay.subrange(k, k + pat.len()) == pat
}

/// The views of a vector of character vectors.
pub open spec fn views(v: Seq<Vec<char>>) -> Seq<Seq<char>> {
    v.map_values(|x: Vec<char>| x@)
}

/// `split_on` always yields at least one piece.
pub proof fn lemma_split_on_nonempty(s: Seq<char>, sep: char)
    ensures
        split_on(s, sep).len() >= 1,
    decreases s.len(),
{
    if s.len() > 0 {
        lemma_split_on_nonempty(s.drop_last(), sep);
    }
}

/// A text without `sep` is a single piece.
pub proof fn lemma_split_on_no_sep(x: Seq<char>, sep: char)
    requires
        !x.contains(sep),
    ensures
        split_on(x, sep) == seq![x],
    decreases x.len(),
{
    if x.len() > 0 {
        assert(!x.drop_last().contains(sep)) by {
            if x.drop_last().contains(sep) {
                lemma_contains_drop_last(x, sep);
            }
        }
        lemma_split_on_no_sep(x.drop_last(), sep);
        assert(x[x.len() - 1] != sep);
        assert(x.drop_last().push(x.last()) =~= x);
    } else {
        assert(x =~= Seq::<char>::empty());
    }
}

/// Splitting at a separator between two texts splits each of them.
pub proof fn lemma_split_on_concat(x: Seq<char>, y: Seq<char>, sep: char)
    ensures
        split_on(x + seq![sep] + y, sep) == split_on(x, sep) + split_on(y, sep),
    decreases y.len(),
{
    let s = x + seq![sep] + y;
    if y.len() == 0 {
        assert(s.drop_last() =~= x);
        assert(split_on(y, sep) =~= seq![Seq::<char>::empty()]);
        assert(split_on(s, sep) =~= split_on(x, sep) + split_on(y, sep));
    } else {
        let y2 = y.drop_last();
        lemma_split_on_concat(x, y2, sep);
        lemma_split_on_nonempty(y2, sep);
        lemma_split_on_nonempty(x, sep);
        assert(s.drop_last() =~= x + seq![sep] + y2);
        assert(s.last() == y.last());
        let a = split_on(x, sep);
        let b = split_on(y2, sep);
        if y.last() == sep {
            assert(split_on(s, sep) =~= a + b.push(Seq::<char>::empty()));
        } else {
            assert((a + b).update((a + b).len() - 1, (a + b).last().push(y.last())) =~= a + b.update(
                b.len() - 1,
                b.last().push(y.last()),
            ));
        }
        assert(split_on(s, sep) =~= split_on(x, sep) + split_on(y, sep));
    }
}

/// A character of `s.drop_last()` is a character of `s`.
pub proof fn lemma_contains_drop_last(s: Seq<char>, x: char)
    requires
        s.len() > 0,
        s.drop_last().contains(x),
    ensures
        s.contains(x),
{
    let i = choose|i: int| 0 <= i < s.drop_last().len() && s.drop_last()[i] == x;
    assert(s[i] == x);
}

/// No piece of `split_on(s, sep)` holds `sep`, and every character of a
/// piece is a character of `s`.
pub proof fn lemma_split_on_pieces(s: Seq<char>, sep: char)
    ensures
        forall|k: int, t: int|
            #![trigger split_on(s, sep)[k][t]]
            0 <= k < split_on(s, sep).len() && 0 <= t < split_on(s, sep)[k].len() ==> split_on(
                s,
                sep,
            )[k][t] != sep && s.contains(split_on(s, sep)[k][t]),
    decreases s.len(),
{
    if s.len() > 0 {
        let p = split_on(s.drop_last(), sep);
        lemma_split_on_pieces(s.drop_last(), sep);
        lemma_split_on_nonempty(s.drop_last(), sep);
        let q = split_on(s, sep);
        assert forall|k: int, t: int| 0 <= k < q.len() && 0 <= t < q[k].len() implies q[k][t]
            != sep && s.contains(q[k][t]) by {
            if s.last() == sep {
                if k < p.len() {
                    assert(q[k] == p[k]);
                    assert(p[k][t] != sep && s.drop_last().contains(p[k][t]));
                    lemma_contains_drop_last(s, q[k][t]);
                }
            } else if k < p.len() - 1 {
                assert(q[k] == p[k]);
                assert(p[k][t] != sep && s.drop_last().contains(p[k][t]));
                lemma_contains_drop_last(s, q[k][t]);
            } else {
                assert(q[k] == p.last().push(s.last()));
                if t < p.last().len() {
                    assert(q[k][t] == p[p.len() - 1][t]);
                    assert(s.drop_last().contains(p[p.len() - 1][t]));
                    lemma_contains_drop_last(s, q[k][t]);
                } else {
                    assert(q[k][t] == s.last());
                    assert(s[s.len() - 1] == s.last());
                }
            }
        }
    }
}

/// `trim_start(s)` is made of characters of `s` and begins with no white
/// space.
pub proof fn lemma_trim_start(s: Seq<char>)
    ensures
        forall|t: int| 0 <= t < trim_start(s).len() ==> s.contains(#[trigger] trim_start(s)[t]),
        trim_start(s).len() > 0 ==> !is_white_space(trim_start(s)[0]),
    decreases s.len(),
{
    if s.len() > 0 && is_white_space(s[0]) {
        let r = s.drop_first();
        lemma_trim_start(r);
        assert forall|t: int| 0 <= t < trim_start(s).len() implies s.contains(
            #[trigger] trim_start(s)[t],
        ) by {
            let i = choose|i: int| 0 <= i < r.len() && r[i] == trim_start(r)[t];
            assert(s[i + 1] == r[i]);
        }
    } else {
        assert forall|t: int| 0 <= t < trim_start(s).len() implies s.contains(
            #[trigger] trim_start(s)[t],
        ) by {
            assert(s[t] == trim_start(s)[t]);
        }
    }
}

/// `trim_end(s)` is a prefix of `s` that ends with no white space.
pub proof fn lemma_trim_end(s: Seq<char>)
    ensures
        trim_end(s).len() <= s.len(),
        forall|t: int| 0 <= t < trim_end(s).len() ==> #[trigger] trim_end(s)[t] == s[t],
        trim_end(s).len() > 0 ==> !is_white_space(trim_end(s).last()),
    decreases s.len(),
{
    if s.len() > 0 && is_white_space(s.last()) {
        lemma_trim_end(s.drop_last());
    }
}

/// `trim(s)` is made of characters of `s`, and neither begins nor ends with
/// white space.
pub proof fn lemma_trim(s: Seq<char>)
    ensures
        forall|t: int| 0 <= t < trim(s).len() ==> s.contains(#[trigger] trim(s)[t]),
        trim(s).len() > 0 ==> !is_white_space(trim(s)[0]) && !is_white_space(trim(s).last()),
{
    lemma_trim_start(s);
    lemma_trim_end(trim_start(s));
    assert forall|t: int| 0 <= t < trim(s).len() implies s.contains(#[trigger] trim(s)[t]) by {
        assert(trim(s)[t] == trim_start(s)[t]);
    }
    if trim(s).len() > 0 {
        assert(trim(s)[0] == trim_start(s)[0]);
    }
}

/// Whether every character of `w` is white space.
pub open spec fn all_white(w: Seq<char>) -> bool {
    forall|i: int| 0 <= i < w.len() ==> is_white_space(#[trigger] w[i])
}

/// Leading white space does not survive `trim_start`.
proof fn lemma_trim_start_white_prefix(w: Seq<char>, r: Seq<char>)
    requires
        all_white(w),
    ensures
        trim_start(w + r) == trim_start(r),
    decreases w.len(),
{
    if w.len() > 0 {
        assert((w + r)[0] == w[0]);
        assert((w + r).drop_first() =~= w.drop_first() + r);
        lemma_trim_start_white_prefix(w.drop_first(), r);
    } else {
        assert(w + r =~= r);
    }
}

/// Trailing white space does not survive `trim_end`.
proof fn lemma_trim_end_white_suffix(r: Seq<char>, w: Seq<char>)
    requires
        all_white(w),
    ensures
        trim_end(r + w) == trim_end(r),
    decreases w.len(),
{
    if w.len() > 0 {
        assert((r + w).last() == w.last());
        assert((r + w).drop_last() =~= r + w.drop_last());
        lemma_trim_end_white_suffix(r, w.drop_last());
    } else {
        assert(r + w =~= r);
    }
}

/// Trimming removes exactly the white space around a text that neither
/// begins nor ends with white space, and nothing else.
pub proof fn law_trim_strips_white_ends(before: Seq<char>, s: Seq<char>, after: Seq<char>)
    requires
        all_white(before),
        all_white(after),
        s.len() > 0 ==> !is_white_space(s[0]) && !is_white_space(s.last()),
    ensures
        trim(before + s + after) == s,
{
    assert(before + s + after =~= before + (s + after));
    lemma_trim_start_white_prefix(before, s + after);
    if s.len() > 0 {
        assert((s + after)[0] == s[0]);
        assert(trim_start(s + after) == s + after);
        lemma_trim_end_white_suffix(s, after);
    } else {
        assert(s + after =~= after);
        assert(after =~= Seq::<char>::empty() + after);
        lemma_trim_start_white_prefix(after, Seq::<char>::empty());
    }
}

/// The characters of `s`, in order.
pub fn str_chars(s: &str) -> (r: Vec<char>)
    ensures
        r@ == s@,
{
    let mut out: Vec<char> = Vec::new();
    for c in it: s.chars()
        invariant
            out@ == it.seq().take(it.index()),
    {
        out.push(c);
    }
    out
}

/// The string made of the characters of `v`.
#[verifier::external_body]
pub fn chars_to_string(v: Vec<char>) -> (r: String)
    ensures
        r@ == v@,
{
    String::from_iter(v)
}

/// Whether two string slices hold the same characters (`str`'s `==`).
pub fn str_eq(a: &str, b: &str) -> (r: bool)
    ensures
        r == (a@ == b@),
{
    let x = str_chars(a);
    let y = str_chars(b);
    if x.len() != y.len() {
        return false;
    }
    let n = x.len();
    for i in 0..n
        invariant
            n == x.len(),
            n == y.len(),
            x@ == a@,
            y@ == b@,
            forall|j: int| 0 <= j < i ==> x@[j] == y@[j],
    {
        if x[i] != y[i] {
            return false;
        }
    }
    assert(x@ =~= y@);
    true
}

/// Appends the characters of `s` to `out`.
pub fn push_str(out: &mut Vec<char>, s: &str)
    ensures
        final(out)@ == old(out)@ + s@,
{
    let tail = str_chars(s);
    let ghost before = out@;
    let mut i: usize = 0;
    while i < tail.len()
        invariant
            i <= tail.len(),
            tail@ == s@,
            out@ == before + tail@.take(i as int),
        decreases tail.len() - i,
    {
        out.push(tail[i]);
        i = i + 1;
        assert(out@ =~= before + tail@.take(i as int));
    }
    assert(tail@.take(i as int) =~= tail@);
}

/// The views of a vector of strings.
pub open spec fn string_views(v: Seq<String>) -> Seq<Seq<char>> {
    v.map_values(|x: String| x@)
}

/// The string slice `s` as an owned string.
pub fn owned(s: &str) -> (r: String)
    ensures
        r@ == s@,
{
    String::from_str(s)
}

/// Splits `s` at every `sep`, as `str::split` with a one-character pattern.
pub fn split_chars(s: &Vec<char>, sep: char) -> (r: Vec<Vec<char>>)
    ensures
        views(r@) == split_on(s@, sep),
{
    let mut done: Vec<Vec<char>> = Vec::new();
    let mut cur: Vec<char> = Vec::new();
    let n = s.len();
    assert(s@.take(0) =~= Seq::<char>::empty());
    assert(views(done@).push(cur@) =~= seq![Seq::<char>::empty()]);
    for i in 0..n
        invariant
            n == s.len(),
            split_on(s@.take(i as int), sep) == views(done@).push(cur@),
    {
        let c = s[i];
        assert(s@.take(i + 1).drop_last() =~= s@.take(i as int));
        assert(s@.take(i + 1).last() == c);
        proof {
            lemma_split_on_nonempty(s@.take(i as int), sep);
        }
        if c == sep {
            let ghost old_done = views(done@);
            let ghost old_cur = cur@;
            done.push(cur);
            cur = Vec::new();
            assert(views(done@) =~= old_done.push(old_cur));
            assert(split_on(s@.take(i + 1), sep) =~= views(done@).push(cur@));
        } else {
            let ghost old_cur = cur@;
            cur.push(c);
            assert(split_on(s@.take(i + 1), sep) =~= views(done@).push(cur@));
        }
    }
    assert(s@.take(n as int) =~= s@);
    let ghost before = views(done@);
    let ghost last = cur@;
    done.push(cur);
    assert(views(done@) =~= before.push(last));
    done
}

/// Whether `pat` occurs in `hay` starting at `k`.
fn matches_at(hay: &Vec<char>, pat: &Vec<char>, k: usize) -> (r: bool)
    requires
        k + pat.len() <= hay.len(),
    ensures
        r == (hay@.subrange(k as int, k + pat.len()) == pat@),
{
    let m = pat.len();
    for j in 0..m
        invariant
            m == pat.len(),
            k + m <= hay.len(),
            hay@.subrange(k as int, k + j) == pat@.take(j as int),
    {
        if hay[k + j] != pat[j] {
            assert(hay@.subrange(k as int, k + m)[j as int] != pat@[j as int]);
            return false;
        }
        assert(hay@.subrange(k as int, k + j + 1) =~= pat@.take(j + 1));
    }
    assert(pat@.take(m as int) =~= pat@);
    true
}

/// Whether `pat` occurs in `hay` (`str::contains` with a string pattern).
pub fn contains_chars(hay: &Vec<char>, pat: &Vec<char>) -> (r: bool)
    ensures
        r == has_infix(hay@, pat@),
{
    if pat.len() > hay.len() {
        return false;
    }
    let last = hay.len() - pat.len();
    let mut k: usize = 0;
    loop
        invariant
            last == hay.len() - pat.len(),
            pat.len() <= hay.len(),
            k <= last,
            forall|j: int| 0 <= j < k ==> #[trigger] hay@.subrange(j, j + pat.len()) != pat@,
        decreases last + 1 - k,
    {
        if matches_at(hay, pat, k) {
            return true;
        }
        if k == last {
            return false;
        }
        k = k + 1;
    }
}

/// `s` with leading and trailing white space removed (`str::trim`).
pub fn trim_chars(s: &Vec<char>) -> (r: Vec<char>)
    ensures
        r@ == trim(s@),
{
    let n = s.len();
    let mut a: usize = 0;
    assert(s@.subrange(0, n as int) =~= s@);
    while a < n && white_space(s[a])
        invariant
            a <= n,
            n == s.len(),
            trim_start(s@) == trim_start(s@.subrange(a as int, n as int)),
        decreases n - a,
    {
        assert(s@.subrange(a as int, n as int).drop_first() =~= s@.subrange(a + 1, n as int));
        a = a + 1;
    }
    let ghost t = s@.subrange(a as int, n as int);
    assert(trim_start(s@) == t);
    let mut b: usize = n;
    assert(t =~= s@.subrange(a as int, b as int));
    while b > a && white_space(s[b - 1])
        invariant
            a <= b <= n,
            n == s.len(),
            trim_end(t) == trim_end(s@.subrange(a as int, b as int)),
        decreases b - a,
    {
        assert(s@.subrange(a as int, b as int).drop_last() =~= s@.subrange(a as int, b - 1));
        b = b - 1;
    }
    assert(trim_end(t) == s@.subrange(a as int, b as int));
    let mut out: Vec<char> = Vec::new();
    for i in a..b
        invariant
            a <= b <= n,
            n == s.len(),
            out@ == s@.subrange(a as int, i as int),
    {
        out.push(s[i]);
        assert(out@ =~= s@.subrange(a as int, i + 1));
    }
    out
}

} // verus!
