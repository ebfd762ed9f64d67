//! Verified text helpers: ASCII case folding, splitting and joining on the
//! `|` delimiter, decimal rendering of integers, and first-match searches.
use vstd::prelude::*;
use vstd::string::StrSliceExecFns;
use vstd::string::StringExecFns;

verus! {

/// Index of the first element of `s` satisfying `pred`, or `s.len()` if none does.
pub open spec fn find_first<T>(s: Seq<T>, pred: spec_fn(T) -> bool) -> int
    decreases s.len(),
{
    if s.len() == 0 {
        0
    } else if pred(s[0]) {
        0
    } else {
        1 + find_first(s.drop_first(), pred)
    }
}

pub proof fn lemma_find_first<T>(s: Seq<T>, pred: spec_fn(T) -> bool)
    ensures
        0 <= find_first(s, pred) <= s.len(),
        forall|k: int| 0 <= k < find_first(s, pred) ==> !pred(s[k]),
        find_first(s, pred) < s.len() ==> pred(s[find_first(s, pred)]),
    decreases s.len(),
{
    if s.len() > 0 && !pred(s[0]) {
        lemma_find_first(s.drop_first(), pred);
        assert forall|k: int| 0 <= k < find_first(s, pred) implies !pred(s[k]) by {
            if k > 0 {
                assert(s.drop_first()[k - 1] == s[k]);
            }
        }
        if find_first(s, pred) < s.len() {
            assert(s.drop_first()[find_first(s.drop_first(), pred)] == s[find_first(s, pred)]);
        }
    }
}

/// Converse direction, used to conclude a linear scan: if nothing matches
/// before `j` and `j` is a match (or the end), then `j` is the first match.
pub proof fn lemma_find_first_is<T>(s: Seq<T>, pred: spec_fn(T) -> bool, j: int)
    requires
        0 <= j <= s.len(),
        forall|k: int| 0 <= k < j ==> !pred(s[k]),
        j < s.len() ==> pred(s[j]),
    ensures
        find_first(s, pred) == j,
    decreases s.len(),
{
    if s.len() > 0 {
        if j == 0 {
            if !pred(s[0]) {
                lemma_find_first(s.drop_first(), pred);
            }
        } else {
            assert(!pred(s[0]));
            assert forall|k: int| 0 <= k < j - 1 implies !pred(s.drop_first()[k]) by {
                assert(s.drop_first()[k] == s[k + 1]);
            }
            assert(j - 1 < s.drop_first().len() ==> pred(s.drop_first()[j - 1]));
            lemma_find_first_is(s.drop_first(), pred, j - 1);
        }
    }
}

/// ASCII lowercase of one character; anything outside `A..=Z` passes through.
pub open spec fn lower_char(c: char) -> char {
    if 'A' <= c && c <= 'Z' {
        (((c as u32) + 32) as u8) as char
    } else {
        c
    }
}

/// ASCII lowercase of a character sequence.
pub open spec fn lower_seq(s: Seq<char>) -> Seq<char> {
    s.map_values(|c: char| lower_char(c))
}

pub proof fn lemma_lower_char_idempotent(c: char)
    ensures
        lower_char(lower_char(c)) == lower_char(c),
{
}

pub proof fn lemma_lower_seq_idempotent(s: Seq<char>)
    ensures
        lower_seq(lower_seq(s)) == lower_seq(s),
{
    assert(lower_seq(lower_seq(s)) =~= lower_seq(s)) by {
        assert forall|i: int| 0 <= i < s.len() implies lower_seq(lower_seq(s))[i] == lower_seq(
            s,
        )[i] by {
            lemma_lower_char_idempotent(s[i]);
        }
    }
}

fn lower_char_exec(c: char) -> (r: char)
    ensures
        r == lower_char(c),
{
    let u = c as u32;
    if 65 <= u && u <= 90 {
        ((u + 32) as u8) as char
    } else {
        c
    }
}

/// Relies on String::push: appends exactly the given character at the end.
#[verifier::external_body]
pub(crate) fn push_char(s: &mut String, c: char)
    ensures
        final(s)@ == old(s)@.push(c),
{
    s.push(c);
}

/// ASCII-lowercase a string slice into a fresh `String`.
pub fn to_lowercase_string(s: &str) -> (r: String)
    ensures
        r@ == lower_seq(s@),
{
    let n = s.unicode_len();
    let mut r = String::new();
    let mut i: usize = 0;
    while i < n
        invariant
            i <= n,
            n == s@.len(),
            r@ == lower_seq(s@.subrange(0, i as int)),
        decreases n - i,
    {
        let c = s.get_char(i);
        let lc = lower_char_exec(c);
        push_char(&mut r, lc);
        proof {
            assert(s@.subrange(0, i + 1) =~= s@.subrange(0, i as int).push(s@[i as int]));
            assert(lower_seq(s@.subrange(0, i + 1)) =~= lower_seq(
                s@.subrange(0, i as int),
            ).push(lower_char(s@[i as int])));
        }
        i = i + 1;
    }
    proof {
        assert(s@.subrange(0, n as int) =~= s@);
    }
    r
}

/// Exact character-wise equality of two string slices.
pub fn str_eq(a: &str, b: &str) -> (r: bool)
    ensures
        r == (a@ == b@),
{
    let n = a.unicode_len();
    let m = b.unicode_len();
    if n != m {
        return false;
    }
    let mut i: usize = 0;
    while i < n
        invariant
            i <= n,
            n == a@.len(),
            n == b@.len(),
            forall|k: int| 0 <= k < i ==> a@[k] == b@[k],
        decreases n - i,
    {
        if a.get_char(i) != b.get_char(i) {
            return false;
        }
        i = i + 1;
    }
    proof {
        assert(a@ =~= b@);
    }
    true
}

/// `p` is a leading literal prefix of `s`.
pub open spec fn is_prefix(p: Seq<char>, s: Seq<char>) -> bool {
    p.len() <= s.len() && p == s.subrange(0, p.len() as int)
}

/// Character-wise prefix test.
pub fn starts_with(s: &str, p: &str) -> (r: bool)
    ensures
        r == is_prefix(p@, s@),
{
    let n = p.unicode_len();
    let m = s.unicode_len();
    if n > m {
        return false;
    }
    let mut i: usize = 0;
    while i < n
        invariant
            i <= n,
            n == p@.len(),
            m == s@.len(),
            n <= m,
            forall|k: int| 0 <= k < i ==> p@[k] == s@[k],
        decreases n - i,
    {
        if p.get_char(i) != s.get_char(i) {
            proof {
                assert(s@.subrange(0, p@.len() as int)[i as int] == s@[i as int]);
            }
            return false;
        }
        i = i + 1;
    }
    proof {
        assert(p@ =~= s@.subrange(0, p@.len() as int));
    }
    true
}

/// First index of the `|` delimiter, or the length if there is none.
pub open spec fn find_pipe(s: Seq<char>) -> int {
    find_first(s, |c: char| c == '|')
}

/// Tokens of `s` between `|` delimiters, exactly as `str::split('|')` yields
/// them: the empty string splits to one empty token, and a trailing delimiter
/// yields a trailing empty token.
pub open spec fn split_pipe(s: Seq<char>) -> Seq<Seq<char>>
    decreases s.len(),
    via split_pipe_decreases
{
    if find_pipe(s) == s.len() {
        seq![s]
    } else {
        seq![s.take(find_pipe(s))] + split_pipe(s.skip(find_pipe(s) + 1))
    }
}

#[via_fn]
proof fn split_pipe_decreases(s: Seq<char>) {
    lemma_find_first(s, |c: char| c == '|');
}

pub open spec fn no_pipe(s: Seq<char>) -> bool {
    forall|k: int| 0 <= k < s.len() ==> s[k] != '|'
}

proof fn lemma_split_pipe_whole(s: Seq<char>)
    requires
        no_pipe(s),
    ensures
        split_pipe(s) == seq![s],
{
    lemma_find_first_is(s, |c: char| c == '|', s.len() as int);
}

proof fn lemma_split_pipe_step(p: Seq<char>, rest: Seq<char>)
    requires
        no_pipe(p),
    ensures
        split_pipe(p + seq!['|'] + rest) == seq![p] + split_pipe(rest),
{
    let w = p + seq!['|'] + rest;
    assert forall|k: int| 0 <= k < p.len() implies w[k] != '|' by {
        assert(w[k] == p[k]);
    }
    assert(w[p.len() as int] == '|');
    lemma_find_first_is(w, |c: char| c == '|', p.len() as int);
    assert(w.take(p.len() as int) =~= p);
    assert(w.skip(p.len() as int + 1) =~= rest);
}

/// Split a string on `|`, matching `split_pipe` of its view.
pub fn split_pipe_exec(s: &str) -> (r: Vec<String>)
    ensures
        r.deep_view() == split_pipe(s@),
{
    let n = s.unicode_len();
    let mut out: Vec<String> = Vec::new();
    let mut cur = String::new();
    let mut i: usize = 0;
    proof {
        assert(out.deep_view() =~= Seq::<Seq<char>>::empty());
        assert(cur@ + s@.skip(0) =~= s@);
        assert(Seq::<Seq<char>>::empty() + split_pipe(s@) =~= split_pipe(s@));
    }
    while i < n
        invariant
            i <= n,
            n == s@.len(),
            no_pipe(cur@),
            split_pipe(s@) == out.deep_view() + split_pipe(cur@ + s@.skip(i as int)),
        decreases n - i,
    {
        let ghost out0 = out.deep_view();
        let ghost cur0 = cur@;
        let c = s.get_char(i);
        if c == '|' {
            proof {
                assert(cur0 + s@.skip(i as int) =~= cur0 + seq!['|'] + s@.skip(i + 1));
                lemma_split_pipe_step(cur0, s@.skip(i + 1));
                assert((out0 + (seq![cur0] + split_pipe(s@.skip(i + 1)))) =~= (out0.push(cur0)
                    + split_pipe(s@.skip(i + 1))));
            }
            out.push(cur);
            cur = String::new();
            proof {
                assert(out.deep_view() =~= out0.push(cur0));
                assert(cur@ + s@.skip(i + 1) =~= s@.skip(i + 1));
            }
        } else {
            push_char(&mut cur, c);
            proof {
                assert(cur@ + s@.skip(i + 1) =~= cur0 + s@.skip(i as int));
            }
        }
        i = i + 1;
    }
    proof {
        assert(cur@ + s@.skip(n as int) =~= cur@);
        lemma_split_pipe_whole(cur@);
    }
    let ghost pre = out.deep_view();
    let ghost last = cur@;
    out.push(cur);
    proof {
        assert(out.deep_view() =~= pre.push(last));
        assert(pre + seq![last] =~= pre.push(last));
    }
    out
}

/// Join parts with the `|` delimiter.
pub open spec fn join_pipe(parts: Seq<Seq<char>>) -> Seq<char>
    decreases parts.len(),
{
    if parts.len() == 0 {
        Seq::empty()
    } else if parts.len() == 1 {
        parts[0]
    } else {
        join_pipe(parts.drop_last()) + seq!['|'] + parts.last()
    }
}

/// Join a vector of strings with `|`.
pub fn join_pipe_exec(parts: &Vec<String>) -> (r: String)
    ensures
        r@ == join_pipe(parts.deep_view()),
{
    let mut r = String::new();
    let mut i: usize = 0;
    while i < parts.len()
        invariant
            i <= parts@.len(),
            parts.deep_view().len() == parts@.len(),
            r@ == join_pipe(parts.deep_view().take(i as int)),
        decreases parts@.len() - i,
    {
        let ghost dv = parts.deep_view();
        if i > 0 {
            push_char(&mut r, '|');
        }
        r = r.concat(parts[i].as_str());
        proof {
            assert(dv.take(i + 1).drop_last() =~= dv.take(i as int));
            assert(dv.take(i + 1).last() == dv[i as int]);
            assert(parts@[i as int]@ == dv[i as int]);
            if i == 0 {
                assert(r@ =~= dv[0]);
                assert(r@ == join_pipe(dv.take(1)));
            } else {
                assert(r@ =~= join_pipe(dv.take(i as int)) + seq!['|'] + dv[i as int]);
            }
        }
        i = i + 1;
    }
    proof {
        assert(parts.deep_view().take(parts.deep_view().len() as int) =~= parts.deep_view());
    }
    r
}

/// The character for decimal digit `d`.
pub open spec fn digit_char(d: int) -> char {
    ((48 + d) as u8) as char
}

/// Decimal digits of a natural number, most significant first.
pub open spec fn dec_digits(n: nat) -> Seq<char>
    decreases n,
    via dec_digits_decreases
{
    if n < 10 {
        seq![digit_char(n as int)]
    } else {
        dec_digits(n / 10).push(digit_char((n % 10) as int))
    }
}

#[via_fn]
proof fn dec_digits_decreases(n: nat) {
    if n >= 10 {
        assert(n / 10 < n) by (nonlinear_arith)
            requires
                n >= 10,
        ;
    }
}

/// Decimal rendering of an integer, with a leading `-` when negative.
pub open spec fn int_dec(n: int) -> Seq<char> {
    if n < 0 {
        seq!['-'] + dec_digits((-n) as nat)
    } else {
        dec_digits(n as nat)
    }
}

fn digit_char_exec(d: u64) -> (r: char)
    requires
        d < 10,
    ensures
        r == digit_char(d as int),
{
    ((48 + d) as u8) as char
}

fn push_digits(s: &mut String, m: u64)
    ensures
        final(s)@ == old(s)@ + dec_digits(m as nat),
    decreases m,
{
    if m < 10 {
        push_char(s, digit_char_exec(m));
        proof {
            assert(old(s)@.push(digit_char(m as int)) =~= old(s)@ + dec_digits(m as nat));
        }
    } else {
        proof {
            assert(m / 10 < m) by (nonlinear_arith)
                requires
                    m >= 10,
            ;
        }
        push_digits(s, m / 10);
        push_char(s, digit_char_exec(m % 10));
        proof {
            assert((old(s)@ + dec_digits((m / 10) as nat)).push(digit_char((m % 10) as int))
                =~= old(s)@ + dec_digits(m as nat));
        }
    }
}

/// Decimal rendering of an unsigned `n` as a `String`.
pub fn nat_to_decimal(n: u64) -> (r: String)
    ensures
        r@ == int_dec(n as int),
{
    let mut r = String::new();
    push_digits(&mut r, n);
    proof {
        assert(r@ =~= dec_digits(n as nat));
    }
    r
}

/// Decimal rendering of `n` as a `String`.
pub fn int_to_decimal(n: i64) -> (r: String)
    requires
        n > i64::MIN,
    ensures
        r@ == int_dec(n as int),
{
    let mut r = String::new();
    if n < 0 {
        push_char(&mut r, '-');
        let m = (-n) as u64;
        push_digits(&mut r, m);
        proof {
            assert(r@ =~= seq!['-'] + dec_digits(m as nat));
        }
    } else {
        push_digits(&mut r, n as u64);
        proof {
            assert(r@ =~= dec_digits(n as nat));
        }
    }
    r
}

} // verus!
