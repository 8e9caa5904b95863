//! Which strings Rust reads as an `f64`.
//!
//! `str::parse::<f64>` succeeds exactly on the strings that, with ASCII
//! letters compared without regard to case, match
//!
//! ```text
//! Float    ::= Sign? ( 'inf' | 'infinity' | 'nan' | Number )
//! Number   ::= Mantissa Exp?
//! Mantissa ::= Digit+ | Digit+ '.' Digit* | Digit* '.' Digit+
//! Exp      ::= 'e' Sign? Digit+
//! Sign     ::= [+-]
//! Digit    ::= [0-9]
//! ```

use vstd::prelude::*;
use crate::text::{ascii_lower, ascii_lower_seq, chars_of, is_digit, to_ascii_lower};

verus! {

/// Every character of `s` is a decimal digit.
pub open spec fn all_digits(s: Seq<char>) -> bool {
    forall|i: int| 0 <= i < s.len() ==> is_digit(#[trigger] s[i])
}

/// `c` is `+` or `-`.
pub open spec fn is_sign(c: char) -> bool {
    c == '+' || c == '-'
}

/// `Mantissa ::= Digit+ | Digit+ '.' Digit* | Digit* '.' Digit+`
pub open spec fn is_mantissa(m: Seq<char>) -> bool {
    ||| m.len() > 0 && all_digits(m)
    ||| exists|a: Seq<char>, b: Seq<char>|
        #![trigger a + seq!['.'] + b]
        m == a + seq!['.'] + b && all_digits(a) && all_digits(b) && a.len() + b.len() > 0
}

/// `Exp ::= 'e' Sign? Digit+`, with `e` or `E`.
pub open spec fn is_exponent(e: Seq<char>) -> bool {
    &&& e.len() >= 2
    &&& ascii_lower(e[0]) == 'e'
    &&& if is_sign(e[1]) {
        e.len() >= 3 && all_digits(e.skip(2))
    } else {
        all_digits(e.skip(1))
    }
}

/// `Number ::= Mantissa Exp?`
pub open spec fn is_number(s: Seq<char>) -> bool {
    exists|m: Seq<char>, e: Seq<char>|
        #![trigger m + e]
        s == m + e && is_mantissa(m) && (e.len() == 0 || is_exponent(e))
}

/// `Float ::= Sign? ( 'inf' | 'infinity' | 'nan' | Number )`, letters in either case.
pub open spec fn is_float_literal(s: Seq<char>) -> bool {
    let body = if s.len() > 0 && is_sign(s[0]) { s.skip(1) } else { s };
    ||| ascii_lower_seq(body) == seq!['i', 'n', 'f']
    ||| ascii_lower_seq(body) == seq!['i', 'n', 'f', 'i', 'n', 'i', 't', 'y']
    ||| ascii_lower_seq(body) == seq!['n', 'a', 'n']
    ||| is_number(body)
}

/// The end of the run of digits in `s` that starts at `i`.
pub open spec fn digit_run(s: Seq<char>, i: int) -> int
    decreases s.len() - i,
{
    if 0 <= i < s.len() && is_digit(s[i]) {
        digit_run(s, i + 1)
    } else {
        i
    }
}

/// Reading `s` from the left, greedily: digits, then perhaps a point and
/// digits, then perhaps an exponent up to the end.
pub open spec fn scan_number(s: Seq<char>) -> bool {
    let j1 = digit_run(s, 0);
    let dot = j1 < s.len() && s[j1] == '.';
    let j2 = if dot { digit_run(s, j1 + 1) } else { j1 };
    let mantissa_ok = if dot { j2 > 1 } else { j1 > 0 };
    mantissa_ok && (j2 == s.len() || is_exponent(s.skip(j2)))
}

proof fn lemma_digit_run_bounds(s: Seq<char>, i: int)
    requires
        0 <= i <= s.len(),
    ensures
        i <= digit_run(s, i) <= s.len(),
        forall|k: int| i <= k < digit_run(s, i) ==> is_digit(#[trigger] s[k]),
        digit_run(s, i) == s.len() || !is_digit(s[digit_run(s, i)]),
    decreases s.len() - i,
{
    if i < s.len() && is_digit(s[i]) {
        lemma_digit_run_bounds(s, i + 1);
    }
}

proof fn lemma_digit_run_is(s: Seq<char>, i: int, r: int)
    requires
        0 <= i <= r <= s.len(),
        forall|k: int| i <= k < r ==> is_digit(#[trigger] s[k]),
        r == s.len() || !is_digit(s[r]),
    ensures
        digit_run(s, i) == r,
    decreases r - i,
{
    if i < r {
        lemma_digit_run_is(s, i + 1, r);
    }
}

/// The greedy reading of a `Number` is a `Number`.
proof fn lemma_scan_gives_number(s: Seq<char>)
    requires
        scan_number(s),
    ensures
        is_number(s),
{
    let j1 = digit_run(s, 0);
    lemma_digit_run_bounds(s, 0);
    let dot = j1 < s.len() && s[j1] == '.';
    if dot {
        lemma_digit_run_bounds(s, j1 + 1);
    }
    let j2 = if dot { digit_run(s, j1 + 1) } else { j1 };
    let m = s.take(j2);
    let e = s.skip(j2);
    assert(s == m + e);
    if dot {
        let a = s.take(j1);
        let b = s.subrange(j1 + 1, j2);
        assert(m == a + seq!['.'] + b);
        assert(all_digits(a));
        assert(all_digits(b));
    } else {
        assert(all_digits(m));
    }
    assert(is_mantissa(m));
    assert(s == m + e && is_mantissa(m) && (e.len() == 0 || is_exponent(e)));
}

/// Every `Number` is found by the greedy reading.
#[verifier::rlimit(30)]
proof fn lemma_number_gives_scan(s: Seq<char>)
    requires
        is_number(s),
    ensures
        scan_number(s),
{
    let (m, e) = choose|m: Seq<char>, e: Seq<char>|
        s == m + e && is_mantissa(m) && (e.len() == 0 || is_exponent(e));
    assert(s.len() == m.len() + e.len());
    // after the mantissa comes either the end or an `e`/`E`
    assert(m.len() == s.len() || (!is_digit(s[m.len() as int]) && s[m.len() as int] != '.')) by {
        if e.len() != 0 {
            assert(s[m.len() as int] == e[0]);
            assert(ascii_lower(e[0]) == 'e');
        }
    }
    if m.len() > 0 && all_digits(m) {
        assert forall|k: int| 0 <= k < m.len() implies is_digit(#[trigger] s[k]) by {
            assert(s[k] == m[k]);
        }
        lemma_digit_run_is(s, 0, m.len() as int);
        assert(e == s.skip(m.len() as int));
    } else {
        let (a, b) = choose|a: Seq<char>, b: Seq<char>|
            m == a + seq!['.'] + b && all_digits(a) && all_digits(b) && a.len() + b.len() > 0;
        assert forall|k: int| 0 <= k < a.len() implies is_digit(#[trigger] s[k]) by {
            assert(s[k] == m[k]);
            assert(m[k] == a[k]);
        }
        assert(s[a.len() as int] == m[a.len() as int]);
        assert(m[a.len() as int] == '.');
        lemma_digit_run_is(s, 0, a.len() as int);
        assert forall|k: int| a.len() + 1 <= k < m.len() implies is_digit(#[trigger] s[k]) by {
            assert(s[k] == m[k]);
            assert(m[k] == b[k - a.len() - 1]);
        }
        lemma_digit_run_is(s, a.len() as int + 1, m.len() as int);
        assert(e == s.skip(m.len() as int));
    }
}

/// The grammar's `Number` and the greedy reading agree.
proof fn lemma_number_iff_scan(s: Seq<char>)
    ensures
        is_number(s) == scan_number(s),
{
    if scan_number(s) {
        lemma_scan_gives_number(s);
    }
    if is_number(s) {
        lemma_number_gives_scan(s);
    }
}

/// Whether `chars[from..]`, with ASCII capitals made small, is `word`.
fn rest_is_word(chars: &Vec<char>, from: usize, word: &[char]) -> (same: bool)
    requires
        from <= chars@.len(),
    ensures
        same == (ascii_lower_seq(chars@.skip(from as int)) == word@),
{
    let n = chars.len();
    if n - from != word.len() {
        assert(ascii_lower_seq(chars@.skip(from as int)).len() != word@.len());
        return false;
    }
    for i in 0..word.len()
        invariant
            n == chars@.len(),
            from <= n,
            n - from == word@.len(),
            forall|j: int| 0 <= j < i ==> ascii_lower(chars@[from + j]) == word@[j],
    {
        if to_ascii_lower(chars[from + i]) != word[i] {
            assert(ascii_lower_seq(chars@.skip(from as int))[i as int] != word@[i as int]);
            return false;
        }
    }
    assert(ascii_lower_seq(chars@.skip(from as int)) =~= word@);
    true
}

/// The end of the run of digits in `chars` that starts at `i`.
fn skip_digits(chars: &Vec<char>, i: usize) -> (end: usize)
    requires
        i <= chars@.len(),
    ensures
        end == digit_run(chars@, i as int),
        i <= end <= chars@.len(),
{
    let mut j = i;
    while j < chars.len() && '0' <= chars[j] && chars[j] <= '9'
        invariant
            i <= j <= chars@.len(),
            digit_run(chars@, i as int) == digit_run(chars@, j as int),
        decreases chars@.len() - j,
    {
        j = j + 1;
    }
    j
}

/// Whether the whole of `s` is an exponent part.
fn exponent_at(chars: &Vec<char>, from: usize) -> (ok: bool)
    requires
        from <= chars@.len(),
    ensures
        ok == is_exponent(chars@.skip(from as int)),
{
    let n = chars.len();
    let ghost e = chars@.skip(from as int);
    if n - from < 2 || to_ascii_lower(chars[from]) != 'e' {
        return false;
    }
    let start: usize = if chars[from + 1] == '+' || chars[from + 1] == '-' {
        if n - from < 3 {
            return false;
        }
        from + 2
    } else {
        from + 1
    };
    let end = skip_digits(chars, start);
    proof {
        lemma_digit_run_bounds(chars@, start as int);
        let d = chars@.skip(start as int);
        assert(d == if is_sign(e[1]) { e.skip(2) } else { e.skip(1) });
        if end == n {
            assert forall|k: int| 0 <= k < d.len() implies is_digit(#[trigger] d[k]) by {
                assert(d[k] == chars@[start + k]);
            }
        } else {
            assert(d[end - start] == chars@[end as int]);
        }
    }
    end == n
}

/// Whether `s` reads as an `f64` (see the grammar at the top of this module).
pub fn is_float_literal_str(s: &str) -> (ok: bool)
    ensures
        ok == is_float_literal(s@),
{
    let chars = chars_of(s);
    let n = chars.len();
    let start: usize = if n > 0 && (chars[0] == '+' || chars[0] == '-') { 1 } else { 0 };
    let ghost body = chars@.skip(start as int);
    assert(body == if s@.len() > 0 && is_sign(s@[0]) { s@.skip(1) } else { s@ });
    if rest_is_word(&chars, start, &['i', 'n', 'f'])
        || rest_is_word(&chars, start, &['i', 'n', 'f', 'i', 'n', 'i', 't', 'y'])
        || rest_is_word(&chars, start, &['n', 'a', 'n'])
    {
        return true;
    }
    let j1 = skip_digits(&chars, start);
    let dot = j1 < n && chars[j1] == '.';
    let j2 = if dot { skip_digits(&chars, j1 + 1) } else { j1 };
    let mantissa_ok = if dot { j2 - start > 1 } else { j1 > start };
    let ok = mantissa_ok && (j2 == n || exponent_at(&chars, j2));
    proof {
        lemma_number_iff_scan(body);
        lemma_digit_run_shift(chars@, start as int, start as int);
        if dot {
            lemma_digit_run_shift(chars@, start as int, j1 + 1);
        }
        assert(body.skip(j2 - start) == chars@.skip(j2 as int));
    }
    ok
}

/// Digit runs read the same inside a suffix of `s`.
proof fn lemma_digit_run_shift(s: Seq<char>, start: int, i: int)
    requires
        0 <= start <= i <= s.len(),
    ensures
        digit_run(s.skip(start), i - start) == digit_run(s, i) - start,
    decreases s.len() - i,
{
    if i < s.len() && is_digit(s[i]) {
        assert(s.skip(start)[i - start] == s[i]);
        lemma_digit_run_shift(s, start, i + 1);
    }
}

/// A non-empty run of digits, with or without a sign, reads as an `f64`;
/// so do digits around a single point.
pub proof fn lemma_digits_are_float_literal(a: Seq<char>, b: Seq<char>)
    requires
        all_digits(a),
        all_digits(b),
    ensures
        a.len() > 0 ==> is_float_literal(a),
        a.len() > 0 ==> is_float_literal(seq!['-'] + a),
        a.len() + b.len() > 0 ==> is_float_literal(a + seq!['.'] + b),
{
    let empty = Seq::<char>::empty();
    if a.len() > 0 {
        assert(a == a + empty);
        assert(is_mantissa(a));
        assert((seq!['-'] + a).skip(1) == a);
    }
    if a.len() + b.len() > 0 {
        let m = a + seq!['.'] + b;
        assert(is_mantissa(m));
        assert(m == m + empty);
        if a.len() > 0 {
            assert(m[0] == a[0]);
        } else {
            assert(m[0] == '.');
        }
    }
}

} // verus!
