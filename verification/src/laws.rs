//! The round-trip law: parsing a rendered byte count recovers the count,
//! exactly below the base and within the one-fractional-digit rounding
//! tolerance above it.
use vstd::prelude::*;

use crate::text::char_digit;
use crate::decimal::digits_val;
use crate::decimal::lemma_dec_digits;
use crate::decimal::lemma_dec_val;
use crate::decimal::lemma_half_up_exact;
use crate::decimal::pow10;
use crate::decimal::spec_dec;
use crate::decimal::spec_digit_char;
use crate::decimal::spec_half_up;
use crate::parse::dot_pred;
use crate::parse::is_num_char;
use crate::parse::lemma_count_matching_one;
use crate::parse::lemma_count_matching_zero;
use crate::parse::not_dot_pred;
use crate::parse::num_pred;
use crate::parse::space_pred;
use crate::parse::spec_dot_pos;
use crate::parse::spec_frac_part;
use crate::parse::spec_int_part;
use crate::parse::spec_is_plain_u64;
use crate::parse::spec_lowered;
use crate::parse::spec_num_len;
use crate::parse::spec_number_count;
use crate::parse::spec_number_token;
use crate::parse::spec_parse;
use crate::parse::spec_suffix_start;
use crate::parse::spec_suffix_token;
use crate::parse::spec_trim;
use crate::parse::spec_unit_of;
use crate::parse::spec_valid_number;
use crate::parse::suffix_space_len;
use crate::render::spec_divisor;
use crate::render::spec_exp;
use crate::render::spec_tenths;
use crate::render::spec_to_string;
use crate::render::spec_unit_name;
use crate::scan::lemma_prefix_while_unique;
use crate::text::is_digit_char;
use crate::text::spec_lower_char;
use crate::text::is_space_char;
use crate::units::spec_unit_mult;
use crate::units::Format;
use crate::units::KIB;

verus! {

/// A digit character is no whitespace, no decimal point, no plus sign.
proof fn lemma_digit_char_classes(c: char)
    requires
        is_digit_char(c),
    ensures
        !is_space_char(c),
        c != '.',
        c != '+',
        is_num_char(c),
{
}

/// The value of a single rendered digit.
proof fn lemma_single_digit_val(v: nat)
    requires
        v <= 9,
    ensures
        digits_val(seq![spec_digit_char(v)]) == v,
        is_digit_char(spec_digit_char(v)),
{
    let s = seq![spec_digit_char(v)];
    assert(s.drop_last() =~= Seq::<char>::empty());
    assert(digits_val(s) == digits_val(Seq::<char>::empty()) * 10 + char_digit(s.last()));
}

/// Parsing the rendering of a count below the base recovers it exactly.
proof fn lemma_round_trip_below(n: u64)
    requires
        n < KIB,
    ensures
        spec_parse(spec_to_string(n, Format::IEC)) == Some(n),
{
    let s = spec_to_string(n, Format::IEC);
    let dec = spec_dec(n as nat);
    let dl = dec.len() as int;
    lemma_dec_digits(n as nat);
    lemma_dec_val(n as nat);
    assert(s == dec + seq![' ', 'B']);
    assert(s.len() == dl + 2);
    assert forall|i: int| 0 <= i < dl implies is_digit_char(s[i]) by {
        assert(s[i] == dec[i]);
    }
    assert(s[dl] == ' ');
    assert(s[dl + 1] == 'B');
    lemma_digit_char_classes(s[0]);
    // no leading whitespace, no trailing whitespace
    lemma_prefix_while_unique(s, space_pred(), 0);
    assert(suffix_space_len(s) == 0);
    let t = spec_trim(s);
    assert(t =~= s);
    // the space keeps the whole string from reading as a plain integer
    assert(t[0] != '+');
    assert(!is_digit_char(t[dl]));
    assert(!spec_is_plain_u64(t));
    // the number token is exactly the digit run
    assert forall|j: int| 0 <= j < dl implies num_pred()(s[j]) by {
        lemma_digit_char_classes(s[j]);
    }
    assert(!num_pred()(s[dl]));
    lemma_prefix_while_unique(s, num_pred(), dl);
    assert(spec_num_len(s) == dl);
    let num = spec_number_token(s);
    assert(num =~= dec);
    // the token is valid: all digits, no dot
    assert forall|i: int| 0 <= i < num.len() implies !dot_pred()(num[i]) by {
        lemma_digit_char_classes(num[i]);
    }
    lemma_count_matching_zero(num, dot_pred());
    assert(is_digit_char(num[0]));
    assert(spec_valid_number(num));
    // no dot: the whole token is the integer part
    assert forall|j: int| 0 <= j < num.len() implies not_dot_pred()(num[j]) by {
        lemma_digit_char_classes(num[j]);
    }
    lemma_prefix_while_unique(num, not_dot_pred(), num.len() as int);
    assert(spec_dot_pos(num) == num.len());
    assert(spec_int_part(num) =~= dec);
    assert(spec_frac_part(num) == Seq::<char>::empty());
    // one space, then the unit letter
    let rest = s.subrange(dl, s.len() as int);
    assert(rest =~= seq![' ', 'B']);
    lemma_prefix_while_unique(rest, space_pred(), 1);
    assert(spec_suffix_start(s) == dl + 1);
    let suf = spec_suffix_token(s);
    assert(suf =~= seq!['B']);
    // the suffix names the byte unit
    let l = spec_lowered(suf);
    assert(l.len() == 1);
    assert(l[0] == 'b');
    assert(spec_unit_of(suf) == Some(crate::units::Unit::Byte));
    assert(spec_unit_mult(crate::units::Unit::Byte) == 1);
    // the token's count is the original value
    assert(digits_val(spec_int_part(num)) == n);
    assert(digits_val(spec_frac_part(num)) == 0);
    assert(pow10(0) == 1);
    let nn = (digits_val(spec_int_part(num)) * pow10(0) + digits_val(spec_frac_part(num)))
        * 1nat;
    assert(nn == n) by (nonlinear_arith)
        requires
            nn == (n as nat * 1 + 0) * 1,
    ;
    lemma_half_up_exact(n as nat);
    assert(spec_number_count(num, 1) == n);
    assert(spec_parse(s) == Some(n));
}

/// The scaled-and-rounded count stays within the stated tolerance of the
/// original: at most half a divisor is lost to the tenths rounding and
/// half a unit to the final rounding.
proof fn lemma_tenths_tolerance(n: u64, dv: u64, c0: int)
    requires
        1000 <= dv <= n,
        c0 == spec_half_up(spec_tenths(n, dv) * (dv as nat), 10),
    ensures
        c0 >= 0,
        c0 >= n ==> 20 * (c0 - n) <= n + 10,
        c0 < n ==> 20 * (n - c0) <= n + 10,
{
    let ni = n as int;
    let dvi = dv as int;
    vstd::arithmetic::div_mod::lemma_fundamental_div_mod(10 * ni, dvi);
    let qq = (10 * ni) / dvi;
    let rr = (10 * ni) % dvi;
    assert(10 * ni == dvi * qq + rr);
    assert(0 <= rr < dvi);
    let ti = spec_tenths(n, dv) as int;
    let td = ti * dvi;
    if 2 * rr > dvi {
        assert(ti == qq + 1);
        assert(td == dvi * qq + dvi) by (nonlinear_arith)
            requires
                td == ti * dvi,
                ti == qq + 1,
        ;
        assert(2 * (td - 10 * ni) == 2 * (dvi - rr));
    } else if 2 * rr < dvi {
        assert(ti == qq);
        assert(td == dvi * qq) by (nonlinear_arith)
            requires
                td == ti * dvi,
                ti == qq,
        ;
        assert(2 * (10 * ni - td) == 2 * rr);
    } else {
        if qq % 2 == 0 {
            assert(ti == qq);
            assert(td == dvi * qq) by (nonlinear_arith)
                requires
                    td == ti * dvi,
                    ti == qq,
            ;
            assert(2 * (10 * ni - td) == 2 * rr);
        } else {
            assert(ti == qq + 1);
            assert(td == dvi * qq + dvi) by (nonlinear_arith)
                requires
                    td == ti * dvi,
                    ti == qq + 1,
            ;
            assert(2 * (td - 10 * ni) == 2 * (dvi - rr));
        }
    }
    assert(-dvi <= 2 * (td - 10 * ni) <= dvi);
    // c0 against its defining division
    assert(c0 == (2 * td + 10) / 20);
    vstd::arithmetic::div_mod::lemma_fundamental_div_mod(2 * td + 10, 20);
    let r2 = (2 * td + 10) % 20;
    assert(2 * td + 10 == 20 * c0 + r2);
    assert(0 <= r2 < 20);
    assert(20 * c0 - 20 * ni == 2 * (td - 10 * ni) + 10 - r2);
}

/// Parsing the rendering of a count at or above the base succeeds and
/// recovers the count within the rounding tolerance.
proof fn lemma_round_trip_above(n: u64)
    requires
        n >= KIB,
    ensures
        ({
            let r = spec_parse(spec_to_string(n, Format::IEC));
            &&& r is Some
            &&& forall|m: u64|
                r == Some(m) ==> 20 * (if m >= n {
                    m - n
                } else {
                    n - m
                }) <= n + 10
        }),
{
    let s = spec_to_string(n, Format::IEC);
    let e = spec_exp(n, Format::IEC);
    assert(1 <= e <= 5);
    let dv = spec_divisor(Format::IEC, e);
    let t = spec_tenths(n, dv);
    let q = t / 10;
    let f0 = t % 10;
    let dec = spec_dec(q);
    let dl = dec.len() as int;
    let dchar = spec_digit_char(f0);
    let uname = spec_unit_name(Format::IEC, e);
    lemma_dec_digits(q);
    lemma_dec_val(q);
    lemma_single_digit_val(f0);
    assert(KIB <= dv <= n);
    assert(s == dec + seq!['.', dchar, ' '] + uname);
    assert(uname.len() == 3);
    assert(uname[1] == 'i');
    assert(uname[2] == 'B');
    let lu = uname[0];
    assert(!is_space_char(lu) && !is_num_char(lu) && lu != '+');
    assert(s.len() == dl + 6);
    assert forall|i: int| 0 <= i < dl implies is_digit_char(s[i]) by {
        assert(s[i] == dec[i]);
    }
    assert(s[dl] == '.');
    assert(s[dl + 1] == dchar);
    assert(s[dl + 2] == ' ');
    assert(s[dl + 3] == lu);
    assert(s[dl + 4] == 'i');
    assert(s[dl + 5] == 'B');
    lemma_digit_char_classes(s[0]);
    lemma_digit_char_classes(dchar);
    // no whitespace at either end
    lemma_prefix_while_unique(s, space_pred(), 0);
    assert(suffix_space_len(s) == 0);
    let tr = spec_trim(s);
    assert(tr =~= s);
    // the decimal point keeps the string from reading as a plain integer
    assert(tr[0] != '+');
    assert(!is_digit_char(tr[dl]));
    assert(!spec_is_plain_u64(tr));
    // the number token is the digits, the point and the tenths digit
    assert forall|j: int| 0 <= j < dl + 2 implies num_pred()(s[j]) by {
        if j < dl {
            lemma_digit_char_classes(s[j]);
        }
    }
    assert(!num_pred()(s[dl + 2]));
    lemma_prefix_while_unique(s, num_pred(), dl + 2);
    assert(spec_num_len(s) == dl + 2);
    let num = spec_number_token(s);
    assert(num.len() == dl + 2);
    assert forall|j: int| 0 <= j < dl + 2 implies num[j] == s[j] by {}
    // the only decimal point stands right after the integer digits
    assert forall|j: int| 0 <= j < dl implies not_dot_pred()(num[j]) by {
        lemma_digit_char_classes(num[j]);
    }
    assert(!not_dot_pred()(num[dl]));
    lemma_prefix_while_unique(num, not_dot_pred(), dl);
    assert(spec_dot_pos(num) == dl);
    assert forall|i: int| 0 <= i < num.len() && i != dl implies !dot_pred()(num[i]) by {
        if i < dl {
            lemma_digit_char_classes(num[i]);
        } else {
            assert(num[i] == dchar);
        }
    }
    lemma_count_matching_one(num, dot_pred(), dl);
    assert(is_digit_char(num[0]));
    assert(spec_valid_number(num));
    let ip = spec_int_part(num);
    let fp = spec_frac_part(num);
    assert(ip =~= dec);
    assert(fp =~= seq![dchar]);
    assert(digits_val(ip) == q);
    assert(digits_val(fp) == f0);
    // one space, then the three-letter unit name
    let rest = s.subrange(dl + 2, s.len() as int);
    assert(rest =~= seq![' ', lu, 'i', 'B']);
    lemma_prefix_while_unique(rest, space_pred(), 1);
    assert(spec_suffix_start(s) == dl + 3);
    let suf = spec_suffix_token(s);
    assert(suf =~= seq![lu, 'i', 'B']);
    let l = spec_lowered(suf);
    assert(l.len() == 3);
    assert(l[0] == spec_lower_char(lu));
    assert(l[1] == 'i');
    assert(l[2] == 'b');
    // the lowered letter names the binary unit whose multiplier is the divisor
    if e == 1 {
        assert(lu == 'K');
        assert(l[0] == 'k');
        assert(spec_unit_of(suf) == Some(crate::units::Unit::KibiByte));
        assert(spec_unit_mult(crate::units::Unit::KibiByte) == dv);
    } else if e == 2 {
        assert(lu == 'M');
        assert(l[0] == 'm');
        assert(spec_unit_of(suf) == Some(crate::units::Unit::MebiByte));
        assert(spec_unit_mult(crate::units::Unit::MebiByte) == dv);
    } else if e == 3 {
        assert(lu == 'G');
        assert(l[0] == 'g');
        assert(spec_unit_of(suf) == Some(crate::units::Unit::GibiByte));
        assert(spec_unit_mult(crate::units::Unit::GibiByte) == dv);
    } else if e == 4 {
        assert(lu == 'T');
        assert(l[0] == 't');
        assert(spec_unit_of(suf) == Some(crate::units::Unit::TebiByte));
        assert(spec_unit_mult(crate::units::Unit::TebiByte) == dv);
    } else {
        assert(lu == 'P');
        assert(l[0] == 'p');
        assert(spec_unit_of(suf) == Some(crate::units::Unit::PebiByte));
        assert(spec_unit_mult(crate::units::Unit::PebiByte) == dv);
    }
    let u = choose|u: crate::units::Unit| spec_unit_of(suf) == Some(u);
    assert(spec_unit_of(suf) == Some(u));
    assert(spec_unit_mult(u) == dv);
    // the token's count is the rounded tenths scaled back by the divisor
    vstd::arithmetic::div_mod::lemma_fundamental_div_mod(t as int, 10);
    assert(q * 10 + f0 == t);
    assert(pow10(0) == 1);
    assert(pow10(1) == 10);
    let c0 = spec_half_up((digits_val(ip) * pow10(1) + digits_val(fp)) * (dv as nat), pow10(1));
    assert((digits_val(ip) * pow10(1) + digits_val(fp)) * (dv as nat) == t * (dv as nat))
        by (nonlinear_arith)
        requires
            digits_val(ip) == q,
            digits_val(fp) == f0,
            pow10(1) == 10,
            q * 10 + f0 == t,
    ;
    assert(c0 == spec_half_up(t * (dv as nat), 10));
    lemma_tenths_tolerance(n, dv, c0 as int);
    let m = spec_number_count(num, dv as nat);
    assert(m == if c0 > u64::MAX {
        u64::MAX as nat
    } else {
        c0
    });
    assert(spec_parse(s) == Some(m as u64));
    // the clamp can only move the result towards the original count
    if c0 > u64::MAX {
        assert(20 * (u64::MAX - n) <= 20 * (c0 - n));
    }
}

/// Round trip: rendering a byte count in the IEC system and parsing the
/// string back always succeeds.  It recovers the count exactly below the
/// base; above it, where one fractional digit cannot carry the whole
/// count, the recovered value differs from the original by at most
/// (count + 10) / 20.
pub proof fn lemma_to_string_parse_round_trip(n: u64)
    ensures
        spec_parse(spec_to_string(n, Format::IEC)) is Some,
        n < KIB ==> spec_parse(spec_to_string(n, Format::IEC)) == Some(n),
        forall|m: u64|
            spec_parse(spec_to_string(n, Format::IEC)) == Some(m) ==> 20 * (if m >= n {
                m - n
            } else {
                n - m
            }) <= n + 10,
{
    if n < KIB {
        lemma_round_trip_below(n);
    } else {
        lemma_round_trip_above(n);
    }
}

} // verus!
