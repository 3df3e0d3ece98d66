//! Character-level text operations used by the configuration and URL logic,
//! each specified over `Seq<char>` and proved against its specification.
use vstd::prelude::*;
use vstd::string::*;

verus! {

// ─── Specifications ─────────────────────────────────────────────────────────

/// `p` is a prefix of `s`.
pub open spec fn has_prefix(s: Seq<char>, p: Seq<char>) -> bool {
    p.len() <= s.len() && s.subrange(0, p.len() as int) == p
}

/// `p` is a suffix of `s`.
pub open spec fn has_suffix(s: Seq<char>, p: Seq<char>) -> bool {
    p.len() <= s.len() && s.subrange(s.len() - p.len(), s.len() as int) == p
}

/// `p` occurs somewhere in `s`.
pub open spec fn contains_seq(s: Seq<char>, p: Seq<char>) -> bool {
    exists|i: int| 0 <= i && i + p.len() <= s.len() && #[trigger] s.subrange(i, i + p.len()) == p
}

/// Unicode `White_Space`, the set that `char::is_whitespace` accepts.
pub open spec fn is_ws(c: char) -> bool {
    ||| ('\u{9}' <= c && c <= '\u{d}')
    ||| c == ' '
    ||| c == '\u{85}'
    ||| c == '\u{a0}'
    ||| c == '\u{1680}'
    ||| ('\u{2000}' <= c && c <= '\u{200a}')
    ||| c == '\u{2028}'
    ||| c == '\u{2029}'
    ||| c == '\u{202f}'
    ||| c == '\u{205f}'
    ||| c == '\u{3000}'
}

/// What a trimming operation removes: one given character, or whitespace.
pub enum Trim {
    Char(char),
    Whitespace,
}

pub open spec fn trims(t: Trim, c: char) -> bool {
    match t {
        Trim::Char(x) => c == x,
        Trim::Whitespace => is_ws(c),
    }
}

/// `s` without its leading characters that `t` removes.
pub open spec fn trim_start(s: Seq<char>, t: Trim) -> Seq<char>
    decreases s.len(),
{
    if s.len() > 0 && trims(t, s[0]) {
        trim_start(s.drop_first(), t)
    } else {
        s
    }
}

/// `s` without its trailing characters that `t` removes.
pub open spec fn trim_end(s: Seq<char>, t: Trim) -> Seq<char>
    decreases s.len(),
{
    if s.len() > 0 && trims(t, s.last()) {
        trim_end(s.drop_last(), t)
    } else {
        s
    }
}

/// `s` trimmed at both ends.
pub open spec fn trim_both(s: Seq<char>, t: Trim) -> Seq<char> {
    trim_end(trim_start(s, t), t)
}

/// `s` with every leading repetition of the non-empty pattern `p` removed.
pub open spec fn strip_prefix_all(s: Seq<char>, p: Seq<char>) -> Seq<char>
    decreases s.len(),
{
    if p.len() > 0 && has_prefix(s, p) {
        strip_prefix_all(s.skip(p.len() as int), p)
    } else {
        s
    }
}

/// The part of `s` before the first `c` (all of `s` when there is none).
pub open spec fn before_first(s: Seq<char>, c: char) -> Seq<char>
    decreases s.len(),
{
    if s.len() == 0 {
        s
    } else if s[0] == c {
        Seq::empty()
    } else {
        seq![s[0]] + before_first(s.drop_first(), c)
    }
}

/// The part of `s` after the last `c` (all of `s` when there is none).
pub open spec fn after_last(s: Seq<char>, c: char) -> Seq<char>
    decreases s.len(),
{
    if s.len() == 0 {
        s
    } else if s.last() == c {
        Seq::empty()
    } else {
        after_last(s.drop_last(), c).push(s.last())
    }
}

/// `s` has no occurrence of `c`.
pub open spec fn lacks(s: Seq<char>, c: char) -> bool {
    forall|i: int| 0 <= i < s.len() ==> s[i] != c
}

pub open spec fn is_digit(c: char) -> bool {
    '0' <= c && c <= '9'
}

pub open spec fn digit_value(c: char) -> nat {
    (c as nat - '0' as nat) as nat
}

/// The number that a string of decimal digits denotes.
pub open spec fn decimal_value(d: Seq<char>) -> nat
    decreases d.len(),
{
    if d.len() == 0 {
        0
    } else {
        decimal_value(d.drop_last()) * 10 + digit_value(d.last())
    }
}

pub open spec fn all_digits(d: Seq<char>) -> bool {
    forall|i: int| 0 <= i < d.len() ==> is_digit(#[trigger] d[i])
}

/// `str::parse::<u16>`: an optional `+`, then at least one decimal digit,
/// denoting a number that fits in 16 bits.
pub open spec fn parse_u16_spec(s: Seq<char>) -> Option<u16> {
    let d = if s.len() > 1 && s[0] == '+' { s.drop_first() } else { s };
    if d.len() > 0 && all_digits(d) && decimal_value(d) <= u16::MAX {
        Some(decimal_value(d) as u16)
    } else {
        None
    }
}

/// `s.split_once(c)`: the parts before and after the first `c`.
pub open spec fn split_once_spec(s: Seq<char>, c: char) -> Option<(Seq<char>, Seq<char>)> {
    let head = before_first(s, c);
    if head.len() < s.len() {
        Some((head, s.skip(head.len() as int + 1)))
    } else {
        None
    }
}

/// `str::lines`: the lines of `s`, split at `\n`, each without its `\n`
/// and a `\r` just before it; a final empty line is not one.
pub open spec fn lines_spec(s: Seq<char>) -> Seq<Seq<char>>
    decreases s.len(),
{
    if s.len() == 0 {
        Seq::empty()
    } else {
        let head = before_first(s, '\n');
        if head.len() >= s.len() {
            seq![head]
        } else {
            let line = if head.len() > 0 && head.last() == '\r' {
                head.drop_last()
            } else {
                head
            };
            proof {
                lemma_before_first_bounds(s, '\n');
            }
            seq![line] + lines_spec(s.skip(head.len() as int + 1))
        }
    }
}

pub open spec fn string_views(v: Seq<String>) -> Seq<Seq<char>> {
    v.map_values(|x: String| x@)
}

pub open spec fn digit_char(d: nat) -> char {
    if d == 0 { '0' }
    else if d == 1 { '1' }
    else if d == 2 { '2' }
    else if d == 3 { '3' }
    else if d == 4 { '4' }
    else if d == 5 { '5' }
    else if d == 6 { '6' }
    else if d == 7 { '7' }
    else if d == 8 { '8' }
    else { '9' }
}

/// The decimal digits of `n`, without leading zeros.
pub open spec fn decimal_digits(n: nat) -> Seq<char>
    decreases n,
{
    if n < 10 {
        seq![digit_char(n)]
    } else {
        decimal_digits(n / 10).push(digit_char(n % 10))
    }
}

/// The octal digits of `n`, without leading zeros.
pub open spec fn octal_digits(n: nat) -> Seq<char>
    decreases n,
{
    if n < 8 {
        seq![digit_char(n)]
    } else {
        octal_digits(n / 8).push(digit_char(n % 8))
    }
}

/// The decimal text of a signed number.
pub open spec fn signed_decimal(v: int) -> Seq<char> {
    if v < 0 {
        seq!['-'] + decimal_digits((-v) as nat)
    } else {
        decimal_digits(v as nat)
    }
}

/// An optional string taken as an optional character sequence.
pub open spec fn opt_view(o: Option<String>) -> Option<Seq<char>> {
    match o {
        Some(s) => Some(s@),
        None => None,
    }
}

// ─── Lemmas ─────────────────────────────────────────────────────────────────

proof fn lemma_trim_start_step(s: Seq<char>, t: Trim, i: int)
    requires
        0 <= i < s.len(),
        trims(t, s[i]),
    ensures
        trim_start(s.skip(i), t) == trim_start(s.skip(i + 1), t),
{
    assert(s.skip(i).drop_first() =~= s.skip(i + 1));
}

proof fn lemma_trim_end_step(s: Seq<char>, t: Trim, k: int)
    requires
        0 < k <= s.len(),
        trims(t, s[k - 1]),
    ensures
        trim_end(s.take(k), t) == trim_end(s.take(k - 1), t),
{
    assert(s.take(k).drop_last() =~= s.take(k - 1));
}

pub proof fn lemma_before_first_bounds(s: Seq<char>, c: char)
    ensures
        before_first(s, c).len() <= s.len(),
        before_first(s, c) == s.take(before_first(s, c).len() as int),
        lacks(before_first(s, c), c),
        before_first(s, c).len() < s.len() ==> s[before_first(s, c).len() as int] == c,
    decreases s.len(),
{
    if s.len() > 0 && s[0] != c {
        lemma_before_first_bounds(s.drop_first(), c);
        let r = before_first(s.drop_first(), c);
        assert(before_first(s, c) =~= seq![s[0]] + r);
        assert(s.take(r.len() as int + 1) =~= seq![s[0]] + s.drop_first().take(r.len() as int));
    } else if s.len() > 0 {
        assert(before_first(s, c) =~= s.take(0));
    }
}

/// The part before the first `c` of `t` is `t.take(k)` when `t[k]` is the first `c`.
pub proof fn lemma_before_first_at(t: Seq<char>, c: char, k: int)
    requires
        0 <= k <= t.len(),
        lacks(t.take(k), c),
        k < t.len() ==> t[k] == c,
    ensures
        before_first(t, c) == t.take(k),
{
    lemma_before_first_bounds(t, c);
    let l = before_first(t, c).len() as int;
    if l < k {
        assert(t.take(k)[l] == c);
    }
    if k < l {
        assert(before_first(t, c)[k] == t[k]);
    }
}

proof fn lemma_decimal_push(d: Seq<char>, c: char)
    ensures
        decimal_value(d.push(c)) == decimal_value(d) * 10 + digit_value(c),
{
    assert(d.push(c).drop_last() =~= d);
}

// ─── Executable operations ──────────────────────────────────────────────────

/// The characters of `s`, in order.
pub fn chars_of(s: &str) -> (v: Vec<char>)
    ensures
        v@ == s@,
{
    let mut v: Vec<char> = Vec::new();
    for c in it: s.chars()
        invariant
            v@ == it.seq().take(it.index() as int),
    {
        v.push(c);
    }
    v
}

/// Wraps `String::from_iter`, which collects characters into a string in order.
#[verifier::external_body]
pub(crate) fn chars_to_string(v: Vec<char>) -> (s: String)
    ensures
        s@ == v@,
{
    String::from_iter(v)
}

/// Wraps `std::str::from_utf8`: the text that `bytes` encode when they are
/// valid UTF-8.
#[verifier::external_body]
pub(crate) fn utf8_text(bytes: &[u8]) -> (r: Option<String>)
    ensures
        r is Some <==> vstd::utf8::valid_utf8(bytes@),
        r matches Some(s) ==> s@ == vstd::utf8::decode_utf8(bytes@),
{
    std::str::from_utf8(bytes).ok().map(|s| s.to_string())
}

/// A string holding the characters `v[from..to]`.
pub fn string_of_range(v: &Vec<char>, from: usize, to: usize) -> (s: String)
    requires
        from <= to <= v.len(),
    ensures
        s@ == v@.subrange(from as int, to as int),
{
    let mut out: Vec<char> = Vec::new();
    let mut i = from;
    while i < to
        invariant
            from <= i <= to <= v.len(),
            out@ == v@.subrange(from as int, i as int),
        decreases to - i,
    {
        out.push(v[i]);
        assert(out@ =~= v@.subrange(from as int, i + 1));
        i += 1;
    }
    chars_to_string(out)
}

/// A copy of `s`.
pub fn copy_str(s: &str) -> (r: String)
    ensures
        r@ == s@,
{
    String::from_str(s)
}

/// The concatenation of `a` and `b`.
pub fn concat2(a: &str, b: &str) -> (r: String)
    ensures
        r@ == a@ + b@,
{
    let mut r = String::from_str(a);
    r.append(b);
    r
}

/// The concatenation of `a`, `b` and `c`.
pub fn concat3(a: &str, b: &str, c: &str) -> (r: String)
    ensures
        r@ == a@ + b@ + c@,
{
    let mut r = String::from_str(a);
    r.append(b);
    r.append(c);
    r
}

fn seq_has_prefix_at(v: &Vec<char>, at: usize, p: &Vec<char>) -> (r: bool)
    requires
        at <= v.len(),
    ensures
        r == has_prefix(v@.skip(at as int), p@),
{
    if p.len() > v.len() - at {
        return false;
    }
    let mut i: usize = 0;
    while i < p.len()
        invariant
            at + p.len() <= v.len(),
            i <= p.len(),
            forall|j: int| 0 <= j < i ==> v@[at + j] == p@[j],
        decreases p.len() - i,
    {
        if v[at + i] != p[i] {
            assert(v@.skip(at as int).subrange(0, p.len() as int)[i as int] != p@[i as int]);
            return false;
        }
        i += 1;
    }
    assert(v@.skip(at as int).subrange(0, p.len() as int) =~= p@);
    true
}

/// Whether `a` and `b` are the same string.
pub fn str_eq(a: &str, b: &str) -> (r: bool)
    ensures
        r == (a@ == b@),
{
    let v = chars_of(a);
    let w = chars_of(b);
    if v.len() != w.len() {
        return false;
    }
    let mut i: usize = 0;
    while i < v.len()
        invariant
            v.len() == w.len(),
            v@ == a@,
            w@ == b@,
            i <= v.len(),
            forall|j: int| 0 <= j < i ==> v@[j] == w@[j],
        decreases v.len() - i,
    {
        if v[i] != w[i] {
            return false;
        }
        i += 1;
    }
    assert(v@ =~= w@);
    true
}

/// Whether `s` begins with `p`.
pub fn starts_with(s: &str, p: &str) -> (r: bool)
    ensures
        r == has_prefix(s@, p@),
{
    let v = chars_of(s);
    let w = chars_of(p);
    assert(v@.skip(0) =~= v@);
    seq_has_prefix_at(&v, 0, &w)
}

/// Whether `s` ends with `p`.
pub fn ends_with(s: &str, p: &str) -> (r: bool)
    ensures
        r == has_suffix(s@, p@),
{
    let v = chars_of(s);
    let w = chars_of(p);
    if w.len() > v.len() {
        return false;
    }
    let at = v.len() - w.len();
    let r = seq_has_prefix_at(&v, at, &w);
    assert(v@.skip(at as int).subrange(0, w@.len() as int) =~= v@.subrange(
        at as int,
        v@.len() as int,
    ));
    r
}

/// Whether `p` occurs in `s`.
pub fn contains(s: &str, p: &str) -> (r: bool)
    ensures
        r == contains_seq(s@, p@),
{
    let v = chars_of(s);
    let w = chars_of(p);
    if w.len() > v.len() {
        return false;
    }
    let last = v.len() - w.len();
    let mut i: usize = 0;
    loop
        invariant
            w.len() <= v.len(),
            last == v.len() - w.len(),
            i <= last,
            v@ == s@,
            w@ == p@,
            forall|j: int|
                0 <= j < i ==> #[trigger] v@.subrange(j, j + w@.len()) != w@,
        decreases last - i,
    {
        let found = seq_has_prefix_at(&v, i, &w);
        assert(v@.skip(i as int).subrange(0, w@.len() as int) =~= v@.subrange(
            i as int,
            i + w@.len(),
        ));
        if found {
            return true;
        }
        if i == last {
            return false;
        }
        i += 1;
    }
}

fn trims_exec(t: &Trim, c: char) -> (r: bool)
    ensures
        r == trims(*t, c),
{
    match t {
        Trim::Char(x) => c == *x,
        Trim::Whitespace => {
            ('\u{9}' <= c && c <= '\u{d}') || c == ' ' || c == '\u{85}' || c == '\u{a0}' || c
                == '\u{1680}' || ('\u{2000}' <= c && c <= '\u{200a}') || c == '\u{2028}' || c
                == '\u{2029}' || c == '\u{202f}' || c == '\u{205f}' || c == '\u{3000}'
        },
    }
}

/// The index range `[lo, hi)` of `v` that trimming with `t` keeps.
fn trim_range(v: &Vec<char>, t: &Trim, start: bool, end: bool) -> (r: (usize, usize))
    ensures
        r.0 <= r.1 <= v.len(),
        v@.subrange(r.0 as int, r.1 as int) == {
            let s1 = if start { trim_start(v@, *t) } else { v@ };
            if end { trim_end(s1, *t) } else { s1 }
        },
{
    let mut lo: usize = 0;
    assert(v@.skip(0) =~= v@);
    if start {
        while lo < v.len() && trims_exec(t, v[lo])
            invariant
                lo <= v.len(),
                trim_start(v@, *t) == trim_start(v@.skip(lo as int), *t),
            decreases v.len() - lo,
        {
            proof {
                lemma_trim_start_step(v@, *t, lo as int);
            }
            lo += 1;
        }
    }
    let ghost s1 = v@.skip(lo as int);
    assert(start ==> trim_start(v@, *t) == s1);
    assert(!start ==> v@ =~= s1);
    let mut hi: usize = v.len();
    assert(s1.take(hi - lo) =~= s1);
    if end {
        while hi > lo && trims_exec(t, v[hi - 1])
            invariant
                lo <= hi <= v.len(),
                s1 == v@.skip(lo as int),
                trim_end(s1, *t) == trim_end(s1.take(hi - lo), *t),
            decreases hi,
        {
            proof {
                lemma_trim_end_step(s1, *t, hi - lo);
            }
            hi -= 1;
        }
        assert(trim_end(s1.take(hi - lo), *t) == s1.take(hi - lo));
    }
    assert(s1.take(hi - lo) =~= v@.subrange(lo as int, hi as int));
    assert(!end ==> s1 =~= v@.subrange(lo as int, hi as int));
    (lo, hi)
}

/// `s.trim_end_matches(c)`.
pub fn trim_end_char(s: &str, c: char) -> (r: String)
    ensures
        r@ == trim_end(s@, Trim::Char(c)),
{
    let v = chars_of(s);
    let (lo, hi) = trim_range(&v, &Trim::Char(c), false, true);
    string_of_range(&v, lo, hi)
}

/// `s.trim_matches(c)`.
pub fn trim_char(s: &str, c: char) -> (r: String)
    ensures
        r@ == trim_both(s@, Trim::Char(c)),
{
    let v = chars_of(s);
    let (lo, hi) = trim_range(&v, &Trim::Char(c), true, true);
    string_of_range(&v, lo, hi)
}

/// `s.trim()`.
pub fn trim_ws(s: &str) -> (r: String)
    ensures
        r@ == trim_both(s@, Trim::Whitespace),
{
    let v = chars_of(s);
    let (lo, hi) = trim_range(&v, &Trim::Whitespace, true, true);
    string_of_range(&v, lo, hi)
}

/// `s.trim_start_matches(p)` for a non-empty pattern `p`.
pub fn strip_prefix_repeated(s: &str, p: &str) -> (r: String)
    ensures
        r@ == strip_prefix_all(s@, p@),
{
    let v = chars_of(s);
    let w = chars_of(p);
    let mut at: usize = 0;
    assert(v@.skip(0) =~= v@);
    while w.len() > 0 && at <= v.len() && seq_has_prefix_at(&v, at, &w)
        invariant
            at <= v.len(),
            v@ == s@,
            w@ == p@,
            strip_prefix_all(v@, w@) == strip_prefix_all(v@.skip(at as int), w@),
        decreases v.len() - at,
    {
        assert(v@.skip(at as int).skip(w@.len() as int) =~= v@.skip(at + w@.len()));
        at += w.len();
    }
    string_of_range(&v, at, v.len())
}

/// The index of the first `c` in `v`, or `v.len()`.
fn first_index(v: &Vec<char>, c: char) -> (k: usize)
    ensures
        k == before_first(v@, c).len(),
{
    proof {
        lemma_before_first_bounds(v@, c);
    }
    let mut i: usize = 0;
    while i < v.len() && v[i] != c
        invariant
            i <= v.len(),
            forall|j: int| 0 <= j < i ==> v@[j] != c,
            lacks(before_first(v@, c), c),
            before_first(v@, c) == v@.take(before_first(v@, c).len() as int),
            before_first(v@, c).len() <= v@.len(),
            before_first(v@, c).len() < v@.len() ==> v@[before_first(v@, c).len() as int] == c,
        decreases v.len() - i,
    {
        i += 1;
    }
    let ghost k = before_first(v@, c).len() as int;
    proof {
        if k < i as int {
            assert(v@[k] == c);
        }
        if (i as int) < k {
            assert(v@.take(k)[i as int] == v@[i as int]);
        }
    }
    i
}

/// `s.split(c).next()`: the part before the first `c`.
pub fn split_first(s: &str, c: char) -> (r: String)
    ensures
        r@ == before_first(s@, c),
{
    let v = chars_of(s);
    let k = first_index(&v, c);
    proof {
        lemma_before_first_bounds(v@, c);
        assert(v@.take(k as int) =~= v@.subrange(0, k as int));
    }
    string_of_range(&v, 0, k)
}

/// `s.split_once(c)`.
pub fn split_once(s: &str, c: char) -> (r: Option<(String, String)>)
    ensures
        match (r, split_once_spec(s@, c)) {
            (Some((a, b)), Some((x, y))) => a@ == x && b@ == y,
            (None, None) => true,
            _ => false,
        },
{
    let v = chars_of(s);
    let k = first_index(&v, c);
    proof {
        lemma_before_first_bounds(v@, c);
        assert(v@.take(k as int) =~= v@.subrange(0, k as int));
        assert(v@.skip(k + 1) =~= v@.subrange(k + 1, v@.len() as int));
    }
    if k < v.len() {
        Some((string_of_range(&v, 0, k), string_of_range(&v, k + 1, v.len())))
    } else {
        None
    }
}

proof fn lemma_after_last_step(s: Seq<char>, c: char, k: int)
    requires
        0 < k <= s.len(),
        s[k - 1] != c,
    ensures
        after_last(s.take(k), c) == after_last(s.take(k - 1), c).push(s[k - 1]),
{
    assert(s.take(k).drop_last() =~= s.take(k - 1));
}

/// `s.split(c).next_back()`: the part after the last `c`.
pub fn split_last(s: &str, c: char) -> (r: String)
    ensures
        r@ == after_last(s@, c),
{
    let v = chars_of(s);
    let mut k: usize = v.len();
    assert(v@.take(v@.len() as int) =~= v@);
    while k > 0 && v[k - 1] != c
        invariant
            k <= v.len(),
            after_last(v@, c) == after_last(v@.take(k as int), c) + v@.subrange(
                k as int,
                v@.len() as int,
            ),
        decreases k,
    {
        proof {
            lemma_after_last_step(v@, c, k as int);
            assert(after_last(v@.take(k - 1), c).push(v@[k - 1]) + v@.subrange(
                k as int,
                v@.len() as int,
            ) =~= after_last(v@.take(k - 1), c) + v@.subrange(k - 1, v@.len() as int));
        }
        k -= 1;
    }
    proof {
        if k > 0 {
            assert(v@.take(k as int).last() == c);
        }
        assert(after_last(v@.take(k as int), c) =~= Seq::<char>::empty());
        assert(after_last(v@, c) =~= v@.subrange(k as int, v@.len() as int));
    }
    string_of_range(&v, k, v.len())
}

/// `s.lines()`.
pub fn lines(s: &str) -> (r: Vec<String>)
    ensures
        string_views(r@) == lines_spec(s@),
{
    let v = chars_of(s);
    let mut out: Vec<String> = Vec::new();
    let mut start: usize = 0;
    let mut i: usize = 0;
    assert(v@.skip(0) =~= v@);
    while i < v.len()
        invariant
            start <= i <= v.len(),
            v@ == s@,
            lines_spec(s@) == string_views(out@) + lines_spec(v@.skip(start as int)),
            lacks(v@.subrange(start as int, i as int), '\n'),
        decreases v.len() - i,
    {
        if v[i] == '\n' {
            let ghost t = v@.skip(start as int);
            proof {
                assert(t.take(i - start) =~= v@.subrange(start as int, i as int));
                lemma_before_first_at(t, '\n', i - start);
            }
            let end = if i > start && v[i - 1] == '\r' { i - 1 } else { i };
            let line = string_of_range(&v, start, end);
            proof {
                let head = t.take(i - start);
                assert(t.skip(head.len() as int + 1) =~= v@.skip(i + 1));
                if i > start && v@[i - 1] == '\r' {
                    assert(head.drop_last() =~= v@.subrange(start as int, end as int));
                } else {
                    assert(head =~= v@.subrange(start as int, end as int));
                }
                assert(string_views(out@.push(line)) =~= string_views(out@) + seq![line@]);
            }
            out.push(line);
            start = i + 1;
            assert(v@.subrange(start as int, start as int) =~= Seq::<char>::empty());
        } else {
            assert(v@.subrange(start as int, i + 1) =~= v@.subrange(start as int, i as int).push(
                v@[i as int],
            ));
        }
        i += 1;
    }
    if start < v.len() {
        let ghost t = v@.skip(start as int);
        proof {
            assert(t.take(t.len() as int) =~= t);
            assert(v@.subrange(start as int, v@.len() as int) =~= t);
            lemma_before_first_at(t, '\n', t.len() as int);
        }
        let line = string_of_range(&v, start, v.len());
        assert(string_views(out@.push(line)) =~= string_views(out@) + seq![line@]);
        out.push(line);
    } else {
        assert(string_views(out@) + lines_spec(v@.skip(start as int)) =~= string_views(out@));
    }
    out
}

fn digit_char_exec(d: u64) -> (c: char)
    requires
        d < 10,
    ensures
        c == digit_char(d as nat),
{
    if d == 0 { '0' }
    else if d == 1 { '1' }
    else if d == 2 { '2' }
    else if d == 3 { '3' }
    else if d == 4 { '4' }
    else if d == 5 { '5' }
    else if d == 6 { '6' }
    else if d == 7 { '7' }
    else if d == 8 { '8' }
    else { '9' }
}

fn decimal_chars(n: u64) -> (v: Vec<char>)
    ensures
        v@ == decimal_digits(n as nat),
    decreases n,
{
    if n < 10 {
        let mut v: Vec<char> = Vec::new();
        v.push(digit_char_exec(n));
        assert(v@ =~= seq![digit_char(n as nat)]);
        v
    } else {
        let mut v = decimal_chars(n / 10);
        v.push(digit_char_exec(n % 10));
        v
    }
}

fn octal_chars(n: u64) -> (v: Vec<char>)
    ensures
        v@ == octal_digits(n as nat),
    decreases n,
{
    if n < 8 {
        let mut v: Vec<char> = Vec::new();
        v.push(digit_char_exec(n));
        assert(v@ =~= seq![digit_char(n as nat)]);
        v
    } else {
        let mut v = octal_chars(n / 8);
        v.push(digit_char_exec(n % 8));
        v
    }
}

/// `format!("{:o}", n)`.
pub fn u64_to_octal(n: u64) -> (s: String)
    ensures
        s@ == octal_digits(n as nat),
{
    chars_to_string(octal_chars(n))
}

/// `n.to_string()` for an unsigned number.
pub fn u64_to_decimal(n: u64) -> (s: String)
    ensures
        s@ == decimal_digits(n as nat),
{
    chars_to_string(decimal_chars(n))
}

/// `v.to_string()` for a signed number.
pub fn i64_to_decimal(v: i64) -> (s: String)
    ensures
        s@ == signed_decimal(v as int),
{
    if v < 0 {
        let m: u64 = if v == i64::MIN { 9223372036854775808u64 } else { (-v) as u64 };
        let digits = u64_to_decimal(m);
        proof {
            reveal_strlit("-");
            assert("-"@ =~= seq!['-']);
        }
        concat2("-", digits.as_str())
    } else {
        u64_to_decimal(v as u64)
    }
}

pub open spec fn capped(n: nat) -> nat {
    if n <= 65536 {
        n
    } else {
        65536
    }
}

proof fn lemma_capped_step(digits: Seq<char>, c: char, acc: nat)
    requires
        is_digit(c),
        acc == capped(decimal_value(digits)),
    ensures
        capped(acc * 10 + digit_value(c)) == capped(decimal_value(digits.push(c))),
{
    lemma_decimal_push(digits, c);
}

/// `s.parse::<u16>().ok()`.
pub fn parse_u16(s: &str) -> (r: Option<u16>)
    ensures
        r == parse_u16_spec(s@),
{
    let v = chars_of(s);
    let start: usize = if v.len() > 1 && v[0] == '+' { 1 } else { 0 };
    let ghost d = v@.skip(start as int);
    proof {
        assert(v@.skip(0) =~= v@);
        assert(v@.len() > 1 ==> v@.skip(1) =~= v@.drop_first());
    }
    assert(d == if s@.len() > 1 && s@[0] == '+' { s@.drop_first() } else { s@ });
    if start >= v.len() {
        return None;
    }
    let mut acc: u32 = 0;
    let mut i: usize = start;
    while i < v.len()
        invariant
            start <= i <= v.len(),
            v@ == s@,
            d == v@.skip(start as int),
            d == if s@.len() > 1 && s@[0] == '+' { s@.drop_first() } else { s@ },
            all_digits(v@.subrange(start as int, i as int)),
            acc == capped(decimal_value(v@.subrange(start as int, i as int))),
        decreases v.len() - i,
    {
        let c = v[i];
        if !('0' <= c && c <= '9') {
            assert(d[i - start] == c);
            assert(!is_digit(d[i - start]));
            return None;
        }
        let dv: u32 = (c as u32) - ('0' as u32);
        proof {
            assert(v@.subrange(start as int, i + 1) =~= v@.subrange(start as int, i as int).push(
                c,
            ));
            lemma_capped_step(v@.subrange(start as int, i as int), c, acc as nat);
        }
        let next = acc * 10 + dv;
        acc = if next > 65536 { 65536 } else { next };
        i += 1;
    }
    assert(v@.subrange(start as int, v@.len() as int) =~= d);
    assert(v@ == s@);
    if acc > 65535 {
        None
    } else {
        Some(acc as u16)
    }
}

} // verus!
