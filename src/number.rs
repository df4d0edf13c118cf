//! Recognising the text of a real number: an optional sign, then either a
//! decimal with an optional exponent, or one of the words `inf`,
//! `infinity` and `nan` in any letter case. Leading or trailing blanks
//! are not part of a number.

use vstd::prelude::*;

verus! {

pub open spec fn is_digit(c: char) -> bool {
    '0' <= c && c <= '9'
}

pub open spec fn is_sign(c: char) -> bool {
    c == '+' || c == '-'
}

pub open spec fn is_exponent_marker(c: char) -> bool {
    c == 'e' || c == 'E'
}

/// `s` without its leading sign, if it has one.
pub open spec fn unsigned(s: Seq<char>) -> Seq<char> {
    if s.len() > 0 && is_sign(s[0]) {
        s.subrange(1, s.len() as int)
    } else {
        s
    }
}

pub open spec fn all_digits(s: Seq<char>) -> bool {
    forall|k: int| 0 <= k < s.len() ==> is_digit(#[trigger] s[k])
}

/// Digits with at most one point among them, and at least one digit:
/// `D+`, `D+ '.' D*` or `D* '.' D+`.
pub open spec fn is_mantissa(m: Seq<char>) -> bool {
    &&& forall|k: int| 0 <= k < m.len() ==> is_digit(#[trigger] m[k]) || m[k] == '.'
    &&& forall|j: int, k: int|
        0 <= j < k < m.len() && #[trigger] m[j] == '.' ==> #[trigger] m[k] != '.'
    &&& exists|k: int| 0 <= k < m.len() && is_digit(#[trigger] m[k])
}

/// The part after an exponent marker: an optional sign and at least one
/// digit.
pub open spec fn is_exponent(x: Seq<char>) -> bool {
    unsigned(x).len() > 0 && all_digits(unsigned(x))
}

/// A mantissa, optionally followed by an exponent marker and an exponent.
pub open spec fn is_decimal(u: Seq<char>) -> bool {
    exists|e: int|
        0 <= e <= u.len() && #[trigger] is_mantissa(u.subrange(0, e)) && (e == u.len() || (
        is_exponent_marker(u[e]) && is_exponent(u.subrange(e + 1, u.len() as int))))
}

/// `u` spells the lower-case word `w`, each letter in either case.
pub open spec fn spells(u: Seq<char>, w: Seq<char>) -> bool {
    &&& u.len() == w.len()
    &&& forall|k: int|
        0 <= k < u.len() ==> #[trigger] u[k] == w[k] || (u[k] as u32) as int + 32 == (
        w[k] as u32) as int
}

/// The text of a real number.
pub open spec fn is_number_text(s: Seq<char>) -> bool {
    let u = unsigned(s);
    ||| is_decimal(u)
    ||| spells(u, seq!['i', 'n', 'f'])
    ||| spells(u, seq!['i', 'n', 'f', 'i', 'n', 'i', 't', 'y'])
    ||| spells(u, seq!['n', 'a', 'n'])
}

fn digit(c: char) -> (r: bool)
    ensures
        r == is_digit(c),
{
    '0' <= c && c <= '9'
}

fn mantissa_char(c: char, seen_point: bool) -> (r: bool)
    ensures
        r == (is_digit(c) || (c == '.' && !seen_point)),
{
    digit(c) || (c == '.' && !seen_point)
}

/// Whether `c` from `start` on is an exponent.
fn exponent_at(c: &Vec<char>, start: usize) -> (r: bool)
    requires
        start <= c.len(),
    ensures
        r == is_exponent(c@.subrange(start as int, c@.len() as int)),
{
    let ghost x = c@.subrange(start as int, c@.len() as int);
    let n = c.len();
    let mut i = start;
    if i < n && (c[i] == '+' || c[i] == '-') {
        i = i + 1;
    }
    let ghost d = c@.subrange(i as int, n as int);
    assert(unsigned(x) =~= d);
    if i == n {
        return false;
    }
    let mut j = i;
    while j < n
        invariant
            i <= j <= n,
            n == c@.len(),
            d == c@.subrange(i as int, n as int),
            unsigned(x) == d,
            x == c@.subrange(start as int, n as int),
            forall|k: int| 0 <= k < j - i ==> is_digit(#[trigger] d[k]),
        decreases n - j,
    {
        if !digit(c[j]) {
            assert(!is_digit(d[j - i]));
            return false;
        }
        j = j + 1;
    }
    true
}

/// Whether `c` from `start` on spells the lower-case word `w`.
fn spells_at(c: &Vec<char>, start: usize, w: &Vec<char>) -> (r: bool)
    requires
        start <= c.len(),
    ensures
        r == spells(c@.subrange(start as int, c@.len() as int), w@),
{
    let ghost u = c@.subrange(start as int, c@.len() as int);
    if c.len() - start != w.len() {
        return false;
    }
    let mut k: usize = 0;
    while k < w.len()
        invariant
            0 <= k <= w.len(),
            start + w.len() == c.len(),
            u == c@.subrange(start as int, c@.len() as int),
            forall|j: int|
                0 <= j < k ==> #[trigger] u[j] == w@[j] || (u[j] as u32) as int + 32 == (
                w@[j] as u32) as int,
        decreases w.len() - k,
    {
        let a = c[start + k];
        let b = w[k];
        if !(a == b || (a as u32) as u64 + 32 == (b as u32) as u64) {
            assert(u[k as int] == a);
            return false;
        }
        k = k + 1;
    }
    true
}

/// Whether `c` from `start` on is a decimal.
fn decimal_at(c: &Vec<char>, start: usize) -> (r: bool)
    requires
        start <= c.len(),
    ensures
        r == is_decimal(c@.subrange(start as int, c@.len() as int)),
{
    let ghost u = c@.subrange(start as int, c@.len() as int);
    let n = c.len();
    let mut i = start;
    let mut seen_digit = false;
    let mut seen_point = false;
    while i < n && mantissa_char(c[i], seen_point)
        invariant
            start <= i <= n,
            n == c@.len(),
            u == c@.subrange(start as int, n as int),
            forall|k: int| 0 <= k < i - start ==> is_digit(#[trigger] u[k]) || u[k] == '.',
            forall|j: int, k: int|
                0 <= j < k < i - start && #[trigger] u[j] == '.' ==> #[trigger] u[k] != '.',
            seen_digit <==> exists|k: int| 0 <= k < i - start && is_digit(#[trigger] u[k]),
            seen_point <==> exists|k: int| 0 <= k < i - start && #[trigger] u[k] == '.',
        decreases n - i,
    {
        if digit(c[i]) {
            seen_digit = true;
        } else {
            seen_point = true;
        }
        assert(u[i - start] == c@[i as int]);
        i = i + 1;
    }
    let ghost p = i - start;
    proof {
        if seen_digit {
            let k = choose|k: int| 0 <= k < p && is_digit(#[trigger] u[k]);
            assert(u.subrange(0, p)[k] == u[k]);
            assert(is_mantissa(u.subrange(0, p)));
        }
        // A mantissa that ends before or at the stop point has a digit
        // only if one was seen.
        assert forall|e: int| 0 <= e <= p && #[trigger] is_mantissa(u.subrange(0, e)) implies seen_digit by {
            let k = choose|k: int| 0 <= k < e && is_digit(#[trigger] u.subrange(0, e)[k]);
            assert(u.subrange(0, e)[k] == u[k]);
        }
        // A mantissa that runs past the stop point would have let the scan go on.
        assert forall|e: int| p < e <= u.len() && #[trigger] is_mantissa(u.subrange(0, e)) implies (
        is_digit(u[p]) || (u[p] == '.' && !seen_point)) by {
            let m = u.subrange(0, e);
            assert(m[p] == u[p]);
            if u[p] == '.' && seen_point {
                let j = choose|j: int| 0 <= j < p && #[trigger] u[j] == '.';
                assert(m[j] == u[j]);
            }
        }
    }
    if i == n {
        proof {
            if is_decimal(u) {
                let e = choose|e: int|
                    0 <= e <= u.len() && #[trigger] is_mantissa(u.subrange(0, e)) && (e == u.len() || (
                    is_exponent_marker(u[e]) && is_exponent(u.subrange(e + 1, u.len() as int))));
                assert(seen_digit);
            }
        }
        return seen_digit;
    }
    assert(u[p] == c@[i as int]);
    if c[i] == 'e' || c[i] == 'E' {
        let exp = exponent_at(c, i + 1);
        assert(u.subrange(p + 1, u.len() as int) =~= c@.subrange(i + 1, n as int));
        proof {
            if is_decimal(u) {
                let e = choose|e: int|
                    0 <= e <= u.len() && #[trigger] is_mantissa(u.subrange(0, e)) && (e == u.len() || (
                    is_exponent_marker(u[e]) && is_exponent(u.subrange(e + 1, u.len() as int))));
                if e < p {
                    assert(is_digit(u[e]) || u[e] == '.');
                }
                assert(e == p);
            }
        }
        return seen_digit && exp;
    }
    proof {
        if is_decimal(u) {
            let e = choose|e: int|
                0 <= e <= u.len() && #[trigger] is_mantissa(u.subrange(0, e)) && (e == u.len() || (
                is_exponent_marker(u[e]) && is_exponent(u.subrange(e + 1, u.len() as int))));
            if e < p {
                assert(is_digit(u[e]) || u[e] == '.');
            }
            assert(false);
        }
    }
    false
}

/// Whether `s` is the text of a real number.
pub fn is_real_number(s: &str) -> (r: bool)
    ensures
        r == is_number_text(s@),
{
    let c = chars_of(s);
    let mut start: usize = 0;
    if c.len() > 0 && (c[0] == '+' || c[0] == '-') {
        start = 1;
    }
    assert(unsigned(s@) =~= c@.subrange(start as int, c@.len() as int));
    decimal_at(&c, start) || spells_at(&c, start, &vec!['i', 'n', 'f']) || spells_at(
        &c,
        start,
        &vec!['i', 'n', 'f', 'i', 'n', 'i', 't', 'y'],
    ) || spells_at(&c, start, &vec!['n', 'a', 'n'])
}

/// The characters of a text, in order.
pub fn chars_of(s: &str) -> (r: Vec<char>)
    ensures
        r@ == s@,
{
    broadcast use vstd::string::group_string_axioms;

    let mut v: Vec<char> = Vec::new();
    for c in it: s.chars()
        invariant
            it.seq() == s@,
            v@ == s@.take(it.index() as int),
    {
        v.push(c);
    }
    assert(v@ =~= s@);
    v
}

} // verus!
