//! Decimal notation for byte counts: the specification of a number's digit
//! string, rendering of a `u64` into it, and reading sequences of digits
//! back into values.
use vstd::prelude::*;

use crate::text::char_digit;
use crate::text::digit_char;
use crate::text::is_digit_char;
use crate::text::push_char;

verus! {

/// The digit character for a value below ten.
pub open spec fn spec_digit_char(d: nat) -> char {
    if d == 0 {
        '0'
    } else if d == 1 {
        '1'
    } else if d == 2 {
        '2'
    } else if d == 3 {
        '3'
    } else if d == 4 {
        '4'
    } else if d == 5 {
        '5'
    } else if d == 6 {
        '6'
    } else if d == 7 {
        '7'
    } else if d == 8 {
        '8'
    } else {
        '9'
    }
}

/// The usual decimal notation of `n`: most significant digit first, no
/// leading zeros (a single '0' for zero itself).
pub open spec fn spec_dec(n: nat) -> Seq<char>
    decreases n,
{
    if n < 10 {
        seq![spec_digit_char(n)]
    } else {
        spec_dec(n / 10).push(spec_digit_char(n % 10))
    }
}

/// The value of a sequence of digit characters, most significant first.
pub open spec fn digits_val(s: Seq<char>) -> nat
    decreases s.len(),
{
    if s.len() == 0 {
        0
    } else {
        digits_val(s.drop_last()) * 10 + char_digit(s.last())
    }
}

/// Ten to the given power.
pub open spec fn pow10(n: nat) -> nat
    decreases n,
{
    if n == 0 {
        1
    } else {
        10 * pow10((n - 1) as nat)
    }
}

/// The decimal notation of a value consists of digit characters only.
pub proof fn lemma_dec_digits(n: nat)
    ensures
        spec_dec(n).len() >= 1,
        forall|i: int| 0 <= i < spec_dec(n).len() ==> is_digit_char(#[trigger] spec_dec(n)[i]),
    decreases n,
{
    if n >= 10 {
        lemma_dec_digits(n / 10);
    }
}

/// Reading the decimal notation of a value gives the value back.
pub proof fn lemma_dec_val(n: nat)
    ensures
        digits_val(spec_dec(n)) == n,
    decreases n,
{
    assert(char_digit(spec_digit_char(n % 10)) == n % 10);
    if n < 10 {
        assert(spec_dec(n).drop_last() =~= Seq::<char>::empty());
        assert(digits_val(spec_dec(n)) == digits_val(Seq::<char>::empty()) * 10 + char_digit(
            spec_digit_char(n),
        ));
    } else {
        lemma_dec_val(n / 10);
        assert(spec_dec(n).drop_last() =~= spec_dec(n / 10));
        assert(spec_dec(n).last() == spec_digit_char(n % 10));
        assert(digits_val(spec_dec(n)) == (n / 10) * 10 + char_digit(spec_digit_char(n % 10)));
    }
}

/// Ten to any power is positive.
pub proof fn lemma_pow10_pos(n: nat)
    ensures
        pow10(n) >= 1,
    decreases n,
{
    if n > 0 {
        lemma_pow10_pos((n - 1) as nat);
    }
}

/// Place-value decomposition at the most significant digit.
pub proof fn lemma_digits_val_head(s: Seq<char>)
    requires
        s.len() >= 1,
    ensures
        digits_val(s) == char_digit(s[0]) * pow10((s.len() - 1) as nat) + digits_val(
            s.drop_first(),
        ),
    decreases s.len(),
{
    let l = s.len() as int;
    if l == 1 {
        assert(s.drop_last() =~= Seq::<char>::empty());
        assert(s.drop_first() =~= Seq::<char>::empty());
        assert(digits_val(Seq::<char>::empty()) == 0);
        assert(s.last() == s[0]);
        assert(digits_val(s) == 0 * 10 + char_digit(s[0]));
        assert(pow10(0) == 1);
    } else {
        let dl = s.drop_last();
        lemma_digits_val_head(dl);
        assert(dl.drop_first() =~= s.drop_first().drop_last());
        assert(s.drop_first().last() == s.last());
        let c0 = char_digit(s[0]);
        let p = pow10((l - 2) as nat);
        assert(digits_val(s) == (c0 * p + digits_val(s.drop_first().drop_last())) * 10
            + char_digit(s.last()));
        assert((c0 * p + digits_val(s.drop_first().drop_last())) * 10 == c0 * (10 * p)
            + digits_val(s.drop_first().drop_last()) * 10) by (nonlinear_arith);
        assert(pow10((l - 1) as nat) == 10 * p);
        assert(digits_val(s.drop_first()) == digits_val(s.drop_first().drop_last()) * 10
            + char_digit(s.drop_first().last()));
    }
}

/// A sequence of digit characters reads below ten to its length.
pub proof fn lemma_digits_val_bound(s: Seq<char>)
    ensures
        digits_val(s) < pow10(s.len()),
    decreases s.len(),
{
    if s.len() == 0 {
    } else {
        lemma_digits_val_bound(s.drop_last());
        assert(char_digit(s.last()) <= 9);
        assert(digits_val(s.drop_last()) * 10 <= (pow10((s.len() - 1) as nat) - 1) * 10)
            by (nonlinear_arith)
            requires
                digits_val(s.drop_last()) <= pow10((s.len() - 1) as nat) - 1,
        ;
    }
}

/// `num / den`, rounded to the nearest integer with halves rounding up.
pub open spec fn spec_half_up(num: nat, den: nat) -> nat
    recommends
        den >= 1,
{
    (2 * num + den) / (2 * den)
}

/// Rounding an exact integer changes nothing.
pub proof fn lemma_half_up_exact(n: nat)
    ensures
        spec_half_up(n, 1) == n,
{
    vstd::arithmetic::div_mod::lemma_fundamental_div_mod_converse(
        2 * n as int + 1,
        2,
        n as int,
        1,
    );
}

/// The integer part of a scaled decimal hoists out of the rounding.
pub proof fn lemma_half_up_split(a: nat, f: nat, d: nat, m: nat)
    ensures
        spec_half_up((a * pow10(d) + f) * m, pow10(d)) == a * m + spec_half_up(f * m, pow10(d)),
{
    let p = pow10(d) as int;
    lemma_pow10_pos(d);
    let x = 2 * (f * m) as int + p;
    let j = (a * m) as int;
    assert(2 * ((a * pow10(d) + f) * m) as int + p == x + j * (2 * p)) by (nonlinear_arith)
        requires
            x == 2 * (f * m) + p,
            j == a * m,
            p == pow10(d) as int,
    ;
    vstd::arithmetic::div_mod::lemma_hoist_over_denominator(x, j, (2 * p) as nat);
    assert((x + j * (2 * p)) / (2 * p) == x / (2 * p) + j);
}

/// Rounding half-up equals the truncating quotient plus one exactly when
/// the first decimal digit of the remainder reaches five.
pub proof fn lemma_half_up_from_digits(x: nat, d: nat, c: nat, r: nat)
    requires
        d >= 1,
        c == x / pow10(d),
        r == (x / pow10((d - 1) as nat)) % 10,
    ensures
        spec_half_up(x, pow10(d)) == c + if r >= 5 {
            1nat
        } else {
            0nat
        },
{
    let e = pow10((d - 1) as nat) as int;
    let p = pow10(d) as int;
    lemma_pow10_pos((d - 1) as nat);
    assert(p == 10 * e);
    let xi = x as int;
    vstd::arithmetic::div_mod::lemma_fundamental_div_mod(xi, p);
    let q = xi / p;
    let s0 = xi % p;
    assert(0 <= s0 < p);
    vstd::arithmetic::div_mod::lemma_fundamental_div_mod(s0, e);
    let h = s0 / e;
    let rr = s0 % e;
    assert(0 <= rr < e);
    assert(h <= 9) by (nonlinear_arith)
        requires
            h == s0 / e,
            s0 < 10 * e,
            e >= 1,
            s0 >= 0,
    ;
    assert(h >= 0) by (nonlinear_arith)
        requires
            h == s0 / e,
            s0 >= 0,
            e >= 1,
    ;
    // x / e == q * 10 + h
    assert(xi == (q * 10 + h) * e + rr) by (nonlinear_arith)
        requires
            xi == p * q + s0,
            s0 == e * h + rr,
            p == 10 * e,
    ;
    vstd::arithmetic::div_mod::lemma_fundamental_div_mod_converse(xi, e, q * 10 + h, rr);
    assert(xi / e == q * 10 + h);
    vstd::arithmetic::div_mod::lemma_mod_multiples_vanish(q, h, 10);
    vstd::arithmetic::div_mod::lemma_small_mod(h as nat, 10);
    assert(r == h);
    // split (2x + p) / (2p) by whether 2 * s0 reaches p
    if 2 * s0 >= p {
        assert(2 * xi + p == (q + 1) * (2 * p) + (2 * s0 - p)) by (nonlinear_arith)
            requires
                xi == p * q + s0,
        ;
        vstd::arithmetic::div_mod::lemma_fundamental_div_mod_converse(
            2 * xi + p,
            2 * p,
            q + 1,
            2 * s0 - p,
        );
        assert(h >= 5) by (nonlinear_arith)
            requires
                2 * s0 >= p,
                p == 10 * e,
                s0 == e * h + rr,
                rr < e,
                e >= 1,
                h <= 9,
        ;
    } else {
        assert(2 * xi + p == q * (2 * p) + (2 * s0 + p)) by (nonlinear_arith)
            requires
                xi == p * q + s0,
        ;
        vstd::arithmetic::div_mod::lemma_fundamental_div_mod_converse(
            2 * xi + p,
            2 * p,
            q,
            2 * s0 + p,
        );
        assert(h < 5) by (nonlinear_arith)
            requires
                2 * s0 < p,
                p == 10 * e,
                s0 == e * h + rr,
                rr >= 0,
                e >= 1,
                h >= 0,
        ;
    }
}

/// Exec mirror of [`spec_digit_char`].
pub fn to_digit_char(d: u64) -> (r: char)
    requires
        d < 10,
    ensures
        r == spec_digit_char(d as nat),
{
    if d == 0 {
        '0'
    } else if d == 1 {
        '1'
    } else if d == 2 {
        '2'
    } else if d == 3 {
        '3'
    } else if d == 4 {
        '4'
    } else if d == 5 {
        '5'
    } else if d == 6 {
        '6'
    } else if d == 7 {
        '7'
    } else if d == 8 {
        '8'
    } else {
        '9'
    }
}

/// Appends the decimal notation of `n` to `out`.
pub fn push_dec(out: &mut String, n: u64)
    ensures
        final(out)@ == old(out)@ + spec_dec(n as nat),
    decreases n,
{
    if n < 10 {
        push_char(out, to_digit_char(n));
        assert(out@ =~= old(out)@ + spec_dec(n as nat));
    } else {
        push_dec(out, n / 10);
        push_char(out, to_digit_char(n % 10));
        assert(out@ =~= old(out)@ + spec_dec(n as nat));
    }
}

/// The decimal notation of `n` as a fresh string.
pub fn u64_to_dec(n: u64) -> (s: String)
    ensures
        s@ == spec_dec(n as nat),
{
    let mut s = String::new();
    push_dec(&mut s, n);
    assert(s@ =~= spec_dec(n as nat));
    s
}

} // verus!
