//! String operations that the scrapers use on the text they pull out of a page:
//! replacing, splitting, trimming, byte-indexed slicing and decimal rendering.
//! Each exec function is proved against a spec function that says what std's
//! operation of the same name computes.
use vstd::prelude::*;
use vstd::string::*;
use vstd::utf8::*;

verus! {

broadcast use vstd::utf8::encode_utf8_decode_utf8;

/// Appends one char to a string (`String::push`).
#[verifier::external_body]
pub(crate) fn push_char(s: &mut String, c: char)
    ensures
        final(s)@ == old(s)@.push(c),
{
    s.push(c);
}

/// Whether `char::is_numeric` holds of `c`: whether `c` is in one of Unicode's
/// general categories for numbers.
pub uninterp spec fn unicode_numeric(c: char) -> bool;

/// `c.is_numeric()`. Claims the named result, and of it what std documents
/// for ASCII: the ten digits are numeric (category Nd), a space (Zs) and the
/// ASCII letters (Lu, Ll) are not. Which other chars Unicode files under the
/// number categories is left unsaid.
#[verifier::external_body]
pub(crate) fn is_numeric(c: char) -> (b: bool)
    ensures
        b == unicode_numeric(c),
        ('0' <= c <= '9') ==> b,
        (c == ' ' || ('a' <= c <= 'z') || ('A' <= c <= 'Z')) ==> !b,
{
    c.is_numeric()
}

/// `a == b` on text.
pub fn text_eq(a: &str, b: &str) -> (r: bool)
    ensures
        r == (a@ == b@),
{
    let n = a.unicode_len();
    if n != b.unicode_len() {
        return false;
    }
    let mut i: usize = 0;
    while i < n
        invariant
            n == a@.len(),
            n == b@.len(),
            i <= n,
            forall|k: int| 0 <= k < i ==> a@[k] == b@[k],
        decreases n - i,
    {
        if a.get_char(i) != b.get_char(i) {
            return false;
        }
        i = i + 1;
    }
    assert(a@ =~= b@);
    true
}

/// The chars of a string, as a vector.
pub fn to_chars(s: &str) -> (v: Vec<char>)
    ensures
        v@ == s@,
{
    let n = s.unicode_len();
    let mut v: Vec<char> = Vec::new();
    let mut i: usize = 0;
    while i < n
        invariant
            n == s@.len(),
            i <= n,
            v@ == s@.take(i as int),
        decreases n - i,
    {
        let c = s.get_char(i);
        v.push(c);
        i = i + 1;
        assert(v@ =~= s@.take(i as int));
    }
    assert(v@ =~= s@);
    v
}

/// The string made of `v[lo..hi]`.
pub fn string_of(v: &Vec<char>, lo: usize, hi: usize) -> (r: String)
    requires
        lo <= hi <= v@.len(),
    ensures
        r@ == v@.subrange(lo as int, hi as int),
{
    let mut r = String::new();
    let mut i: usize = lo;
    while i < hi
        invariant
            lo <= i <= hi <= v@.len(),
            r@ == v@.subrange(lo as int, i as int),
        decreases hi - i,
    {
        push_char(&mut r, v[i]);
        i = i + 1;
        assert(r@ =~= v@.subrange(lo as int, i as int));
    }
    r
}

/// `rep` before each char of `s` and once more at its end: what `s.replace("", rep)`
/// gives, the empty pattern matching at every char boundary.
pub open spec fn interleave(s: Seq<char>, rep: Seq<char>) -> Seq<char>
    decreases s.len(),
{
    if s.len() == 0 {
        rep
    } else {
        rep + seq![s[0]] + interleave(s.skip(1), rep)
    }
}

/// `s.replace(pat, rep)`: every occurrence of `pat`, taken left to right without
/// overlap, is replaced by `rep`; an empty `pat` matches at every char boundary.
pub open spec fn replace_all(s: Seq<char>, pat: Seq<char>, rep: Seq<char>) -> Seq<char>
    decreases s.len(),
{
    if pat.len() == 0 {
        interleave(s, rep)
    } else if s.len() < pat.len() {
        s
    } else if s.take(pat.len() as int) == pat {
        rep + replace_all(s.skip(pat.len() as int), pat, rep)
    } else {
        seq![s[0]] + replace_all(s.skip(1), pat, rep)
    }
}

/// Does `pat` occur in `s` at char position `at`?
fn occurs_at(s: &Vec<char>, pat: &Vec<char>, at: usize) -> (b: bool)
    requires
        at + pat@.len() <= s@.len(),
    ensures
        b == (s@.subrange(at as int, at + pat@.len()) == pat@),
{
    let m = pat.len();
    let n = s.len();
    let mut k: usize = 0;
    while k < m
        invariant
            m == pat@.len(),
            n == s@.len(),
            at + m <= s@.len(),
            k <= m,
            forall|t: int| 0 <= t < k ==> s@[at + t] == pat@[t],
        decreases m - k,
    {
        if s[at + k] != pat[k] {
            assert(s@.subrange(at as int, at + m)[k as int] != pat@[k as int]);
            return false;
        }
        k = k + 1;
    }
    assert(s@.subrange(at as int, at + m) =~= pat@);
    true
}

/// Appends the chars of `v` to `out`.
fn append_chars(out: &mut String, v: &Vec<char>)
    ensures
        final(out)@ == old(out)@ + v@,
{
    let mut i: usize = 0;
    while i < v.len()
        invariant
            i <= v@.len(),
            out@ == old(out)@ + v@.take(i as int),
        decreases v@.len() - i,
    {
        push_char(out, v[i]);
        i = i + 1;
        assert(out@ =~= old(out)@ + v@.take(i as int));
    }
    assert(v@.take(v@.len() as int) =~= v@);
}

/// `s.replace(pat, rep)`.
pub fn replace(s: &str, pat: &str, rep: &str) -> (r: String)
    ensures
        r@ == replace_all(s@, pat@, rep@),
{
    let cs = to_chars(s);
    let ps = to_chars(pat);
    let rs = to_chars(rep);
    let n = cs.len();
    let m = ps.len();
    let mut out = String::new();
    let mut i: usize = 0;
    if m == 0 {
        assert(s@.skip(0) =~= s@);
        assert(out@ + interleave(s@, rep@) =~= interleave(s@, rep@));
        while i < n
            invariant
                cs@ == s@,
                rs@ == rep@,
                n == s@.len(),
                i <= n,
                out@ + interleave(s@.skip(i as int), rep@) == interleave(s@, rep@),
            decreases n - i,
        {
            let ghost rest = s@.skip(i as int);
            assert(rest.skip(1) =~= s@.skip(i + 1));
            assert(rest[0] == cs@[i as int]);
            append_chars(&mut out, &rs);
            push_char(&mut out, cs[i]);
            i = i + 1;
            assert(out@ + interleave(s@.skip(i as int), rep@) =~= interleave(s@, rep@));
        }
        assert(s@.skip(n as int) =~= Seq::<char>::empty());
        append_chars(&mut out, &rs);
        return out;
    }
    assert(s@.skip(0) =~= s@);
    assert(out@ + replace_all(s@, pat@, rep@) =~= replace_all(s@, pat@, rep@));
    while i < n
        invariant
            cs@ == s@,
            ps@ == pat@,
            rs@ == rep@,
            n == s@.len(),
            m == pat@.len(),
            m > 0,
            i <= n,
            out@ + replace_all(s@.skip(i as int), pat@, rep@) == replace_all(s@, pat@, rep@),
        decreases n - i,
    {
        let ghost rest = s@.skip(i as int);
        if n - i >= m && occurs_at(&cs, &ps, i) {
            assert(rest.take(m as int) =~= s@.subrange(i as int, i + m));
            assert(rest.skip(m as int) =~= s@.skip(i + m));
            append_chars(&mut out, &rs);
            i = i + m;
            assert(out@ + replace_all(s@.skip(i as int), pat@, rep@) =~= replace_all(s@, pat@, rep@));
        } else {
            if n - i >= m {
                assert(rest.take(m as int) =~= s@.subrange(i as int, i + m));
            }
            assert(rest.skip(1) =~= s@.skip(i + 1));
            assert(rest[0] == cs@[i as int]);
            if n - i < m {
                assert(replace_all(rest, pat@, rep@) == rest);
                assert(replace_all(rest.skip(1), pat@, rep@) == rest.skip(1));
                assert(rest =~= seq![rest[0]] + rest.skip(1));
            }
            push_char(&mut out, cs[i]);
            i = i + 1;
            assert(out@ + replace_all(s@.skip(i as int), pat@, rep@) =~= replace_all(s@, pat@, rep@));
        }
    }
    assert(s@.skip(n as int) =~= Seq::<char>::empty());
    assert(out@ + Seq::<char>::empty() =~= out@);
    out
}

/// Whether `pat` occurs in `s` at char position `i`.
pub open spec fn occurs(s: Seq<char>, pat: Seq<char>, i: int) -> bool {
    0 <= i && i + pat.len() <= s.len() && s.subrange(i, i + pat.len()) == pat
}

/// Where `pat` does not occur in `s`, replacing it leaves `s` as it is.
pub proof fn lemma_replace_all_absent(s: Seq<char>, pat: Seq<char>, rep: Seq<char>)
    requires
        pat.len() > 0,
        forall|i: int| !#[trigger] occurs(s, pat, i),
    ensures
        replace_all(s, pat, rep) == s,
    decreases s.len(),
{
    if s.len() >= pat.len() {
        assert(s.take(pat.len() as int) == s.subrange(0, pat.len() as int));
        assert(!occurs(s, pat, 0));
        let t = s.skip(1);
        assert forall|i: int| !#[trigger] occurs(t, pat, i) by {
            if 0 <= i && i + pat.len() <= t.len() {
                assert(t.subrange(i, i + pat.len()) =~= s.subrange(i + 1, i + 1 + pat.len()));
                assert(!occurs(s, pat, i + 1));
            }
        }
        lemma_replace_all_absent(t, pat, rep);
        assert(seq![s[0]] + t =~= s);
    }
}

/// `s.split(c)`, as the sequence of pieces between the occurrences of `c`.
pub open spec fn split_char(s: Seq<char>, c: char) -> Seq<Seq<char>>
    decreases s.len(),
{
    if s.len() == 0 {
        seq![Seq::empty()]
    } else {
        let pre = split_char(s.drop_last(), c);
        if s.last() == c {
            pre.push(Seq::empty())
        } else {
            pre.update(pre.len() - 1, pre.last().push(s.last()))
        }
    }
}

/// Splitting always yields at least one piece.
pub proof fn lemma_split_char_nonempty(s: Seq<char>, c: char)
    ensures
        split_char(s, c).len() >= 1,
    decreases s.len(),
{
    if s.len() > 0 {
        lemma_split_char_nonempty(s.drop_last(), c);
    }
}

/// Splitting a text that does not hold the separator gives that text as the
/// only piece, and a text that holds it gives more than one piece.
pub proof fn lemma_split_char_single_piece(s: Seq<char>, c: char)
    ensures
        split_char(s, c).len() == 1 <==> !s.contains(c),
        !s.contains(c) ==> split_char(s, c) == seq![s],
    decreases s.len(),
{
    if s.len() > 0 {
        let d = s.drop_last();
        lemma_split_char_single_piece(d, c);
        lemma_split_char_nonempty(d, c);
        if s.last() == c {
            assert(s[s.len() - 1] == c);
        } else {
            assert(s.contains(c) <==> d.contains(c)) by {
                if s.contains(c) {
                    let i = choose|i: int| 0 <= i < s.len() && s[i] == c;
                    assert(i < s.len() - 1);
                    assert(d[i] == c);
                }
                if d.contains(c) {
                    let i = choose|i: int| 0 <= i < d.len() && d[i] == c;
                    assert(s[i] == c);
                }
            }
            if !s.contains(c) {
                assert(d.push(s.last()) =~= s);
                assert(split_char(s, c) =~= seq![s]);
            }
        }
    } else {
        assert(s =~= Seq::<char>::empty());
    }
}

/// `s.split(c)`: the pieces of `s` between the occurrences of `c`.
pub fn split(s: &str, c: char) -> (r: Vec<String>)
    ensures
        r@.map_values(|p: String| p@) == split_char(s@, c),
{
    let cs = to_chars(s);
    let n = cs.len();
    let mut pieces: Vec<String> = Vec::new();
    let mut cur = String::new();
    let mut i: usize = 0;
    while i < n
        invariant
            cs@ == s@,
            n == s@.len(),
            i <= n,
            pieces@.map_values(|p: String| p@).push(cur@) == split_char(s@.take(i as int), c),
        decreases n - i,
    {
        let ghost pre = s@.take(i as int);
        assert(s@.take(i + 1).drop_last() =~= pre);
        assert(s@.take(i + 1).last() == cs@[i as int]);
        proof {
            lemma_split_char_nonempty(pre, c);
        }
        if cs[i] == c {
            let done = cur;
            pieces.push(done);
            cur = String::new();
            assert(pieces@.map_values(|p: String| p@).push(cur@) =~= split_char(s@.take(i + 1), c));
        } else {
            let ghost old_pieces = pieces@.map_values(|p: String| p@);
            let ghost old_cur = cur@;
            push_char(&mut cur, cs[i]);
            assert(pieces@.map_values(|p: String| p@).push(cur@) =~= split_char(s@.take(i + 1), c)) by {
                let sp = split_char(pre, c);
                assert(old_pieces.push(old_cur) == sp);
                assert(split_char(s@.take(i + 1), c) == sp.update(sp.len() - 1, sp.last().push(cs@[i as int])));
                assert(sp.last() == old_cur);
            }
        }
        i = i + 1;
    }
    assert(s@.take(n as int) =~= s@);
    pieces.push(cur);
    assert(pieces@.map_values(|p: String| p@) =~= split_char(s@, c));
    pieces
}

/// Unicode `White_Space`, the chars that `char::is_whitespace` and `str::trim` take for whitespace.
pub open spec fn is_white_space(c: char) -> bool {
    ||| ('\u{9}' <= c && c <= '\u{d}')
    ||| c == ' '
    ||| c == '\u{85}'
    ||| c == '\u{a0}'
    ||| c == '\u{1680}'
    ||| ('\u{2000}' <= c && c <= '\u{200a}')
    ||| c == '\u{2028}'
    ||| c == '\u{2029}'
    ||| c == '\u{202f}'
    ||| c == '\u{205f}'
    ||| c == '\u{3000}'
}

/// `c.is_whitespace()`.
pub fn white_space(c: char) -> (b: bool)
    ensures
        b == is_white_space(c),
{
    ('\u{9}' <= c && c <= '\u{d}') || c == ' ' || c == '\u{85}' || c == '\u{a0}' || c == '\u{1680}'
        || ('\u{2000}' <= c && c <= '\u{200a}') || c == '\u{2028}' || c == '\u{2029}' || c
        == '\u{202f}' || c == '\u{205f}' || c == '\u{3000}'
}

/// `s.trim_start()`.
pub open spec fn trim_start(s: Seq<char>) -> Seq<char>
    decreases s.len(),
{
    if s.len() > 0 && is_white_space(s[0]) {
        trim_start(s.skip(1))
    } else {
        s
    }
}

/// `s.trim_end()`.
pub open spec fn trim_end(s: Seq<char>) -> Seq<char>
    decreases s.len(),
{
    if s.len() > 0 && is_white_space(s.last()) {
        trim_end(s.drop_last())
    } else {
        s
    }
}

/// `s.trim()`: leading and trailing white space removed.
pub open spec fn trim_spec(s: Seq<char>) -> Seq<char> {
    trim_end(trim_start(s))
}

/// `s.trim()`.
pub fn trim(s: &str) -> (r: String)
    ensures
        r@ == trim_spec(s@),
{
    let cs = to_chars(s);
    let n = cs.len();
    let mut lo: usize = 0;
    assert(s@.skip(0) =~= s@);
    while lo < n && white_space(cs[lo])
        invariant
            cs@ == s@,
            n == s@.len(),
            lo <= n,
            trim_start(s@) == trim_start(s@.skip(lo as int)),
        decreases n - lo,
    {
        assert(s@.skip(lo as int).skip(1) =~= s@.skip(lo + 1));
        lo = lo + 1;
    }
    let ghost start = s@.skip(lo as int);
    assert(trim_start(start) == start);
    let mut hi: usize = n;
    while hi > lo && white_space(cs[hi - 1])
        invariant
            cs@ == s@,
            n == s@.len(),
            lo <= hi <= n,
            start == s@.skip(lo as int),
            trim_end(start) == trim_end(s@.subrange(lo as int, hi as int)),
        decreases hi - lo,
    {
        assert(s@.subrange(lo as int, hi as int).drop_last() =~= s@.subrange(lo as int, hi - 1));
        assert(s@.subrange(lo as int, hi as int).last() == cs@[hi - 1]);
        hi = hi - 1;
    }
    assert(start =~= s@.subrange(lo as int, n as int));
    if hi > lo {
        assert(s@.subrange(lo as int, hi as int).last() == cs@[hi - 1]);
    }
    string_of(&cs, lo, hi)
}

/// `s` with every occurrence of `c` removed.
pub open spec fn remove_char(s: Seq<char>, c: char) -> Seq<char>
    decreases s.len(),
{
    if s.len() == 0 {
        s
    } else if s.last() == c {
        remove_char(s.drop_last(), c)
    } else {
        remove_char(s.drop_last(), c).push(s.last())
    }
}

/// Removing a char that does not occur leaves the text as it is.
pub proof fn lemma_remove_char_absent(s: Seq<char>, c: char)
    requires
        !s.contains(c),
    ensures
        remove_char(s, c) == s,
    decreases s.len(),
{
    if s.len() > 0 {
        assert(!s.drop_last().contains(c)) by {
            if s.drop_last().contains(c) {
                let k = choose|k: int| 0 <= k < s.drop_last().len() && s.drop_last()[k] == c;
                assert(s[k] == c);
            }
        }
        lemma_remove_char_absent(s.drop_last(), c);
        assert(s[s.len() - 1] == s.last());
        assert(s.drop_last().push(s.last()) =~= s);
    }
}

/// `s.replace(c, "")`.
pub fn without_char(s: &str, c: char) -> (r: String)
    ensures
        r@ == remove_char(s@, c),
{
    let cs = to_chars(s);
    let n = cs.len();
    let mut out = String::new();
    let mut i: usize = 0;
    while i < n
        invariant
            cs@ == s@,
            n == s@.len(),
            i <= n,
            out@ == remove_char(s@.take(i as int), c),
        decreases n - i,
    {
        assert(s@.take(i + 1).drop_last() =~= s@.take(i as int));
        assert(s@.take(i + 1).last() == cs@[i as int]);
        if cs[i] != c {
            push_char(&mut out, cs[i]);
        }
        i = i + 1;
    }
    assert(s@.take(n as int) =~= s@);
    out
}

/// The char of a decimal digit.
pub open spec fn digit_char(d: nat) -> char {
    (48 + d) as char
}

/// The decimal rendering of `n`, as `n.to_string()` gives it.
pub open spec fn decimal(n: nat) -> Seq<char>
    decreases n,
{
    if n < 10 {
        seq![digit_char(n)]
    } else {
        decimal(n / 10).push(digit_char(n % 10))
    }
}

fn digit(d: u8) -> (c: char)
    requires
        d < 10,
    ensures
        c == digit_char(d as nat),
{
    if d == 0 {
        '0'
    } else if d == 1 {
        '1'
    } else if d == 2 {
        '2'
    } else if d == 3 {
        '3'
    } else if d == 4 {
        '4'
    } else if d == 5 {
        '5'
    } else if d == 6 {
        '6'
    } else if d == 7 {
        '7'
    } else if d == 8 {
        '8'
    } else {
        '9'
    }
}

/// Appends `n.to_string()` to `out`.
pub fn push_decimal(out: &mut String, n: u8)
    ensures
        final(out)@ == old(out)@ + decimal(n as nat),
{
    if n >= 100 {
        push_char(out, digit(n / 100));
    }
    if n >= 10 {
        push_char(out, digit((n / 10) % 10));
    }
    push_char(out, digit(n % 10));
    proof {
        let m = n as nat;
        if m >= 100 {
            assert(decimal(m / 100) == seq![digit_char(m / 100)]);
            assert(decimal(m / 10) == decimal(m / 100).push(digit_char((m / 10) % 10)));
        } else if m >= 10 {
            assert(decimal(m / 10) == seq![digit_char(m / 10)]);
        }
    }
    assert(final(out)@ =~= old(out)@ + decimal(n as nat));
}

/// `&s[k..]`: the text after the first `k` bytes of `s`; `None` where std's
/// slicing panics, because byte `k` does not start a char.
pub fn byte_suffix(s: &str, k: usize) -> (r: Option<&str>)
    ensures
        r is Some <==> is_char_boundary(s.spec_bytes(), k as int),
        r matches Some(t) ==> t@ == decode_utf8(s.spec_bytes().subrange(k as int, s.spec_bytes().len() as int)),
{
    if s.is_char_boundary(k) {
        let (_head, tail) = s.split_at(k);
        assert(tail@ == decode_utf8(encode_utf8(tail@)));
        Some(tail)
    } else {
        None
    }
}

} // verus!
