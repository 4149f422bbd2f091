//! Reading a human-readable byte size back into a count: the number token,
//! the unit suffix, and the exact rounding of their product.
use vstd::arithmetic::div_mod::lemma_fundamental_div_mod;
use vstd::arithmetic::div_mod::lemma_fundamental_div_mod_converse;
use vstd::arithmetic::div_mod::lemma_hoist_over_denominator;
use vstd::prelude::*;
use vstd::string::StrSliceExecFns;
use vstd::string::StringExecFns;

use crate::decimal::digits_val;
use crate::decimal::lemma_digits_val_head;
use crate::decimal::lemma_half_up_from_digits;
use crate::decimal::lemma_half_up_split;
use crate::decimal::lemma_pow10_pos;
use crate::decimal::pow10;
use crate::decimal::spec_half_up;
use crate::scan::prefix_while_len;
use crate::scan::scan_while;
use crate::text::char_digit;
use crate::text::char_digit_val;
use crate::text::is_digit_char;
use crate::text::is_space_char;
use crate::text::spec_lower_char;
use crate::units::spec_unit_mult;
use crate::units::Unit;

verus! {

/// The error returned when a string cannot be read as a byte size.  The
/// field holds a human-readable message naming the offending text and the
/// reason it was rejected.
#[derive(Debug)]
pub struct ParseError(pub String);

/// True of the characters that may form the number token: ASCII digits and
/// the decimal point.
pub open spec fn is_num_char(c: char) -> bool {
    is_digit_char(c) || c == '.'
}

/// The number-token character class as a predicate value.
pub open spec fn num_pred() -> spec_fn(char) -> bool {
    |c: char| is_num_char(c)
}

/// The whitespace character class as a predicate value.
pub open spec fn space_pred() -> spec_fn(char) -> bool {
    |c: char| is_space_char(c)
}

/// Everything but the decimal point, as a predicate value.
pub open spec fn not_dot_pred() -> spec_fn(char) -> bool {
    |c: char| c != '.'
}

/// The decimal point, as a predicate value.
pub open spec fn dot_pred() -> spec_fn(char) -> bool {
    |c: char| c == '.'
}

/// The digit character class as a predicate value.
pub open spec fn digit_pred() -> spec_fn(char) -> bool {
    |c: char| is_digit_char(c)
}

/// How many characters of `s` satisfy `p`.
pub open spec fn count_matching(s: Seq<char>, p: spec_fn(char) -> bool) -> nat
    decreases s.len(),
{
    if s.len() == 0 {
        0
    } else {
        count_matching(s.drop_last(), p) + if p(s.last()) {
            1nat
        } else {
            0nat
        }
    }
}

/// A sequence with no matching character has count zero.
pub proof fn lemma_count_matching_zero(s: Seq<char>, p: spec_fn(char) -> bool)
    requires
        forall|i: int| 0 <= i < s.len() ==> !p(s[i]),
    ensures
        count_matching(s, p) == 0,
    decreases s.len(),
{
    if s.len() > 0 {
        lemma_count_matching_zero(s.drop_last(), p);
    }
}

/// A sequence whose only matching character stands at `k` has count one.
pub proof fn lemma_count_matching_one(s: Seq<char>, p: spec_fn(char) -> bool, k: int)
    requires
        0 <= k < s.len(),
        p(s[k]),
        forall|i: int| 0 <= i < s.len() && i != k ==> !p(s[i]),
    ensures
        count_matching(s, p) == 1,
    decreases s.len(),
{
    if k == s.len() - 1 {
        lemma_count_matching_zero(s.drop_last(), p);
    } else {
        lemma_count_matching_one(s.drop_last(), p, k);
    }
}

/// Two distinct matching characters push the count to at least two.
pub proof fn lemma_count_matching_two(s: Seq<char>, p: spec_fn(char) -> bool, k1: int, k2: int)
    requires
        0 <= k1 < k2 < s.len(),
        p(s[k1]),
        p(s[k2]),
    ensures
        count_matching(s, p) >= 2,
    decreases s.len(),
{
    if k2 == s.len() - 1 {
        lemma_count_matching_ge_one(s.drop_last(), p, k1);
    } else {
        lemma_count_matching_two(s.drop_last(), p, k1, k2);
    }
}

/// A matching character makes the count at least one.
pub proof fn lemma_count_matching_ge_one(s: Seq<char>, p: spec_fn(char) -> bool, k: int)
    requires
        0 <= k < s.len(),
        p(s[k]),
    ensures
        count_matching(s, p) >= 1,
    decreases s.len(),
{
    if k < s.len() - 1 {
        lemma_count_matching_ge_one(s.drop_last(), p, k);
    }
}

/// The position of the first decimal point of a number token (its length
/// when it has none).
pub open spec fn spec_dot_pos(num: Seq<char>) -> nat {
    prefix_while_len(num, not_dot_pred())
}

/// The digits before the first decimal point.
pub open spec fn spec_int_part(num: Seq<char>) -> Seq<char> {
    num.subrange(0, spec_dot_pos(num) as int)
}

/// The digits after the first decimal point (empty when there is none).
pub open spec fn spec_frac_part(num: Seq<char>) -> Seq<char> {
    if spec_dot_pos(num) == num.len() {
        Seq::<char>::empty()
    } else {
        num.subrange(spec_dot_pos(num) as int + 1, num.len() as int)
    }
}

/// A well-formed number token: digits and decimal points only, at least
/// one digit, at most one decimal point.
pub open spec fn spec_valid_number(num: Seq<char>) -> bool {
    &&& (forall|i: int| 0 <= i < num.len() ==> is_num_char(num[i]))
    &&& (exists|i: int| 0 <= i < num.len() && is_digit_char(num[i]))
    &&& count_matching(num, dot_pred()) <= 1
}

/// The count a number token stands for under a unit multiplier: the exact
/// rational value of the token times the multiplier, rounded to the
/// nearest integer with halves up, clamped to the largest representable
/// count.
pub open spec fn spec_number_count(num: Seq<char>, mult: nat) -> nat
    recommends
        spec_valid_number(num),
        mult >= 1,
{
    let ip = spec_int_part(num);
    let fp = spec_frac_part(num);
    let n = digits_val(ip) * pow10(fp.len()) + digits_val(fp);
    let v = spec_half_up(n * mult, pow10(fp.len()));
    if v > u64::MAX {
        u64::MAX as nat
    } else {
        v
    }
}

/// Length of the run of trailing whitespace.
pub open spec fn suffix_space_len(s: Seq<char>) -> nat
    decreases s.len(),
{
    if s.len() == 0 || !is_space_char(s.last()) {
        0
    } else {
        1 + suffix_space_len(s.drop_last())
    }
}

/// Any index with the boundary property of the trailing-whitespace run is
/// that run's length.
pub proof fn lemma_suffix_space_unique(s: Seq<char>, t: int)
    requires
        0 <= t <= s.len(),
        forall|j: int| s.len() - t <= j < s.len() ==> is_space_char(s[j]),
        t < s.len() ==> !is_space_char(s[s.len() - t - 1]),
    ensures
        t == suffix_space_len(s),
    decreases s.len(),
{
    if s.len() == 0 {
    } else if !is_space_char(s.last()) {
        assert(t == 0);
    } else {
        assert(t >= 1);
        let d = s.drop_last();
        assert forall|j: int| d.len() - (t - 1) <= j < d.len() implies is_space_char(d[j]) by {
            assert(d[j] == s[j]);
        }
        lemma_suffix_space_unique(d, t - 1);
    }
}

/// `s` with leading and trailing whitespace removed.
pub open spec fn spec_trim(s: Seq<char>) -> Seq<char> {
    let lead = prefix_while_len(s, space_pred());
    if lead == s.len() {
        Seq::<char>::empty()
    } else {
        s.subrange(lead as int, s.len() - suffix_space_len(s))
    }
}

/// The digits of a plain integer token, stripped of an optional leading
/// plus sign.
pub open spec fn spec_plain_digits(t: Seq<char>) -> Seq<char>
    recommends
        t.len() >= 1,
{
    if t[0] == '+' {
        t.drop_first()
    } else {
        t
    }
}

/// True when `t` reads in whole as a plain `u64`: an optional plus sign,
/// then one or more digits, with a value that fits.
pub open spec fn spec_is_plain_u64(t: Seq<char>) -> bool {
    let d = spec_plain_digits(t);
    &&& t.len() >= 1
    &&& d.len() >= 1
    &&& (forall|i: int| 0 <= i < d.len() ==> is_digit_char(d[i]))
    &&& digits_val(d) <= u64::MAX
}

/// `s` with every character folded to ASCII lower case.
pub open spec fn spec_lowered(s: Seq<char>) -> Seq<char> {
    s.map_values(|c: char| spec_lower_char(c))
}

/// The decimal unit a single folded letter names: `b`, `k`, `m`, `g`,
/// `t` or `p`.
pub open spec fn spec_unit_letter(c: char) -> Option<Unit> {
    if c == 'b' {
        Some(Unit::Byte)
    } else if c == 'k' {
        Some(Unit::KiloByte)
    } else if c == 'm' {
        Some(Unit::MegaByte)
    } else if c == 'g' {
        Some(Unit::GigaByte)
    } else if c == 't' {
        Some(Unit::TeraByte)
    } else if c == 'p' {
        Some(Unit::PetaByte)
    } else {
        None
    }
}

/// The binary unit a single folded letter names: `k`, `m`, `g`, `t` or
/// `p`, each standing for its power-of-two multiple.
pub open spec fn spec_unit_letter_bin(c: char) -> Option<Unit> {
    if c == 'k' {
        Some(Unit::KibiByte)
    } else if c == 'm' {
        Some(Unit::MebiByte)
    } else if c == 'g' {
        Some(Unit::GibiByte)
    } else if c == 't' {
        Some(Unit::TebiByte)
    } else if c == 'p' {
        Some(Unit::PebiByte)
    } else {
        None
    }
}

/// The unit a suffix token names, compared case-insensitively against the
/// closed table of accepted names: `b`; `k`/`kb` through `p`/`pb` for the
/// decimal units; `ki`/`kib` through `pi`/`pib` for the binary ones.
pub open spec fn spec_unit_of(s: Seq<char>) -> Option<Unit> {
    let l = spec_lowered(s);
    if l.len() == 1 {
        spec_unit_letter(l[0])
    } else if l.len() == 2 && l[1] == 'b' && l[0] != 'b' {
        spec_unit_letter(l[0])
    } else if l.len() == 2 && l[1] == 'i' {
        spec_unit_letter_bin(l[0])
    } else if l.len() == 3 && l[1] == 'i' && l[2] == 'b' {
        spec_unit_letter_bin(l[0])
    } else {
        None
    }
}

/// Length of the number token at the start of `s`.
pub open spec fn spec_num_len(s: Seq<char>) -> nat {
    prefix_while_len(s, num_pred())
}

/// The number token at the start of `s`.
pub open spec fn spec_number_token(s: Seq<char>) -> Seq<char> {
    s.subrange(0, spec_num_len(s) as int)
}

/// Where the unit suffix starts: after the number token and the
/// whitespace that follows it.
pub open spec fn spec_suffix_start(s: Seq<char>) -> nat {
    spec_num_len(s) + prefix_while_len(
        s.subrange(spec_num_len(s) as int, s.len() as int),
        space_pred(),
    )
}

/// The unit suffix token: everything from the first character after the
/// number token that is not whitespace.
pub open spec fn spec_suffix_token(s: Seq<char>) -> Seq<char> {
    s.subrange(spec_suffix_start(s) as int, s.len() as int)
}

/// What parsing yields.  A string that trims to a plain integer is that
/// count.  Otherwise the leading run of digits and decimal points is the
/// number token and the text after the following whitespace is the unit
/// suffix; the count is the token's value times the unit's multiplier,
/// rounded half-up and clamped to the largest representable count.  A
/// malformed number token or an unknown suffix parses to nothing.
pub open spec fn spec_parse(s: Seq<char>) -> Option<u64> {
    if spec_is_plain_u64(spec_trim(s)) {
        Some(digits_val(spec_plain_digits(spec_trim(s))) as u64)
    } else if !spec_valid_number(spec_number_token(s)) {
        None
    } else {
        match spec_unit_of(spec_suffix_token(s)) {
            Some(u) => Some(
                spec_number_count(spec_number_token(s), spec_unit_mult(u) as nat) as u64,
            ),
            None => None,
        }
    }
}

/// The message reported when parsing fails: it names the offending text
/// and whether the number or the unit suffix was at fault.
pub open spec fn spec_parse_err(s: Seq<char>) -> Seq<char>
    recommends
        spec_parse(s) is None,
{
    if !spec_valid_number(spec_number_token(s)) {
        "couldn't parse \""@ + s + "\" into a byte size"@
    } else {
        "couldn't parse \""@ + spec_suffix_token(s) + "\" into a known SI unit"@
    }
}

/// The trailing-whitespace run is whitespace, and the character before it
/// (when there is one) is not.
pub proof fn lemma_suffix_space_props(s: Seq<char>)
    ensures
        suffix_space_len(s) <= s.len(),
        forall|j: int| s.len() - suffix_space_len(s) <= j < s.len() ==> is_space_char(s[j]),
        suffix_space_len(s) < s.len() ==> !is_space_char(
            s[s.len() - suffix_space_len(s) - 1],
        ),
    decreases s.len(),
{
    if s.len() > 0 && is_space_char(s.last()) {
        lemma_suffix_space_props(s.drop_last());
        let d = s.drop_last();
        let t = suffix_space_len(s);
        assert forall|j: int| s.len() - t <= j < s.len() implies is_space_char(s[j]) by {
            if j < s.len() - 1 {
                assert(s[j] == d[j]);
            }
        }
        if t < s.len() {
            assert(s[s.len() - t - 1] == d[d.len() - (t - 1) - 1]);
        }
    }
}

/// Exec mirror of [`is_num_char`].
fn num_char(c: char) -> (b: bool)
    ensures
        b == is_num_char(c),
{
    crate::text::digit_char(c) || c == '.'
}

/// True of everything but the decimal point.
fn not_dot(c: char) -> (b: bool)
    ensures
        b == (c != '.'),
{
    c != '.'
}

/// Length of the run of trailing whitespace of `s`.
fn trailing_spaces(s: &str) -> (t: usize)
    ensures
        t as nat == suffix_space_len(s@),
{
    let len = s.unicode_len();
    let mut j: usize = len;
    let mut go = true;
    while go && j > 0
        invariant
            0 <= j <= len,
            len == s@.len(),
            forall|k: int| j <= k < len ==> is_space_char(s@[k]),
            !go ==> j > 0 && !is_space_char(s@[j - 1]),
        decreases j + (if go {
            1int
        } else {
            0int
        }),
    {
        let c = s.get_char(j - 1);
        if crate::text::space_char(c) {
            j = j - 1;
        } else {
            go = false;
        }
    }
    proof {
        lemma_suffix_space_unique(s@, len - j);
    }
    len - j
}

/// Exec mirror of [`spec_unit_of`].
pub fn unit_of(s: &str) -> (r: Option<Unit>)
    ensures
        r == spec_unit_of(s@),
{
    let n = s.unicode_len();
    let ghost l = spec_lowered(s@);
    proof {
        assert(l.len() == s@.len());
    }
    if n == 1 {
        let c0 = crate::text::lower_char(s.get_char(0));
        match c0 {
            'b' => Some(Unit::Byte),
            'k' => Some(Unit::KiloByte),
            'm' => Some(Unit::MegaByte),
            'g' => Some(Unit::GigaByte),
            't' => Some(Unit::TeraByte),
            'p' => Some(Unit::PetaByte),
            _ => None,
        }
    } else if n == 2 {
        let c0 = crate::text::lower_char(s.get_char(0));
        let c1 = crate::text::lower_char(s.get_char(1));
        if c1 == 'b' {
            match c0 {
                'k' => Some(Unit::KiloByte),
                'm' => Some(Unit::MegaByte),
                'g' => Some(Unit::GigaByte),
                't' => Some(Unit::TeraByte),
                'p' => Some(Unit::PetaByte),
                _ => None,
            }
        } else if c1 == 'i' {
            match c0 {
                'k' => Some(Unit::KibiByte),
                'm' => Some(Unit::MebiByte),
                'g' => Some(Unit::GibiByte),
                't' => Some(Unit::TebiByte),
                'p' => Some(Unit::PebiByte),
                _ => None,
            }
        } else {
            None
        }
    } else if n == 3 {
        let c0 = crate::text::lower_char(s.get_char(0));
        let c1 = crate::text::lower_char(s.get_char(1));
        let c2 = crate::text::lower_char(s.get_char(2));
        if c1 == 'i' && c2 == 'b' {
            match c0 {
                'k' => Some(Unit::KibiByte),
                'm' => Some(Unit::MebiByte),
                'g' => Some(Unit::GibiByte),
                't' => Some(Unit::TebiByte),
                'p' => Some(Unit::PebiByte),
                _ => None,
            }
        } else {
            None
        }
    } else {
        None
    }
}

impl core::str::FromStr for Unit {
    type Err = String;

    fn from_str(unit: &str) -> Result<Unit, String> {
        match unit_of(unit) {
            Some(u) => Ok(u),
            None => {
                let mut m = "couldn't parse unit of \"".to_owned();
                m.append(unit);
                m.append("\"");
                Err(m)
            },
        }
    }
}

/// The message for a string that does not read as a number.
fn bad_number_msg(s: &str) -> (m: String)
    ensures
        m@ == "couldn't parse \""@ + s@ + "\" into a byte size"@,
{
    let mut m = "couldn't parse \"".to_owned();
    m.append(s);
    m.append("\" into a byte size");
    proof {
        assert(m@ =~= "couldn't parse \""@ + s@ + "\" into a byte size"@);
    }
    m
}

/// The message for a suffix that names no known unit.
fn bad_unit_msg(s: &str) -> (m: String)
    ensures
        m@ == "couldn't parse \""@ + s@ + "\" into a known SI unit"@,
{
    let mut m = "couldn't parse \"".to_owned();
    m.append(s);
    m.append("\" into a known SI unit");
    proof {
        assert(m@ =~= "couldn't parse \""@ + s@ + "\" into a known SI unit"@);
    }
    m
}

/// Reads the digits of `s` in `[from, to)` as a `u64`; nothing when the
/// value does not fit.
pub(crate) fn digits_to_u64(s: &str, from: usize, to: usize) -> (r: Option<u64>)
    requires
        from <= to <= s@.len(),
        forall|j: int| from <= j < to ==> is_digit_char(s@[j]),
    ensures
        ({
            let v = digits_val(s@.subrange(from as int, to as int));
            if v <= u64::MAX {
                r == Some(v as u64)
            } else {
                r is None
            }
        }),
{
    let mut acc: u64 = 0;
    let mut ok = true;
    let mut i: usize = from;
    proof {
        assert(s@.subrange(from as int, from as int) =~= Seq::<char>::empty());
    }
    while i < to
        invariant
            from <= i <= to <= s@.len(),
            forall|j: int| from <= j < to ==> is_digit_char(s@[j]),
            ok ==> acc == digits_val(s@.subrange(from as int, i as int)),
            !ok ==> digits_val(s@.subrange(from as int, i as int)) > u64::MAX,
        decreases to - i,
    {
        let c = s.get_char(i);
        let d = char_digit_val(c);
        let ghost pre = s@.subrange(from as int, i as int);
        let ghost post = s@.subrange(from as int, i as int + 1);
        proof {
            assert(post.drop_last() =~= pre);
            assert(post.last() == s@[i as int]);
            assert(digits_val(post) == digits_val(pre) * 10 + char_digit(s@[i as int]));
        }
        if ok {
            if acc > (u64::MAX - d) / 10 {
                ok = false;
                proof {
                    lemma_fundamental_div_mod((u64::MAX - d) as int, 10);
                    assert(acc * 10 >= ((u64::MAX - d) / 10) * 10 + 10);
                    assert(digits_val(post) > u64::MAX);
                }
            } else {
                proof {
                    lemma_fundamental_div_mod((u64::MAX - d) as int, 10);
                    assert(acc * 10 <= ((u64::MAX - d) / 10) * 10);
                    assert(acc * 10 + d <= u64::MAX);
                }
                acc = acc * 10 + d;
            }
        } else {
            proof {
                assert(digits_val(post) >= digits_val(pre) * 10);
                assert(digits_val(pre) * 10 >= digits_val(pre)) by (nonlinear_arith);
            }
        }
        i = i + 1;
    }
    if ok {
        Some(acc)
    } else {
        None
    }
}

/// The fractional digits of a number token, scaled by `mult` and rounded
/// half-up: reads the digits in `[from, to)` as the fraction `0.d1d2...`
/// and returns `spec_half_up` of its product with `mult`.
pub(crate) fn frac_round(s: &str, from: usize, to: usize, mult: u64) -> (g: u64)
    requires
        from <= to <= s@.len(),
        1 <= mult <= 1_844_674_407_370_955_161,
        forall|j: int| from <= j < to ==> is_digit_char(s@[j]),
    ensures
        g == spec_half_up(
            digits_val(s@.subrange(from as int, to as int)) * mult as nat,
            pow10((to - from) as nat),
        ),
        g <= mult,
{
    let ghost fd = s@.subrange(from as int, to as int);
    let mut c: u64 = 0;
    let mut r: u64 = 0;
    let mut i: usize = to;
    proof {
        assert(s@.subrange(to as int, to as int) =~= Seq::<char>::empty());
        assert(digits_val(Seq::<char>::empty()) == 0);
        assert(pow10(0) == 1);
        assert((digits_val(s@.subrange(to as int, to as int)) * mult as nat) == 0);
        vstd::arithmetic::div_mod::lemma_div_of0(1);
    }
    while i > from
        invariant
            from <= i <= to <= s@.len(),
            1 <= mult <= 1_844_674_407_370_955_161,
            forall|j: int| from <= j < to ==> is_digit_char(s@[j]),
            c <= mult,
            c == (digits_val(s@.subrange(i as int, to as int)) * mult as nat) / pow10((to - i) as nat),
            i < to ==> r == ((digits_val(s@.subrange(i as int, to as int)) * mult as nat) / pow10(
                (to - i - 1) as nat,
            )) % 10,
            i == to ==> r == 0,
        decreases i,
    {
        i = i - 1;
        let ch = s.get_char(i);
        let f = char_digit_val(ch);
        let ghost k = (to - i - 1) as nat;
        let ghost rest = s@.subrange(i as int + 1, to as int);
        let ghost cur = s@.subrange(i as int, to as int);
        proof {
            lemma_pow10_pos(k);
            assert(cur.len() >= 1);
            assert(cur.drop_first() =~= rest);
            assert(cur[0] == s@[i as int]);
            lemma_digits_val_head(cur);
            assert(digits_val(cur) == char_digit(s@[i as int]) * pow10(k) + digits_val(rest));
            assert(f <= 9);
            assert(f * mult <= 9 * mult) by (nonlinear_arith)
                requires
                    f <= 9,
                    0 <= mult,
            ;
        }
        let t: u64 = f * mult + c;
        proof {
            let x_old = (digits_val(rest) * mult) as int;
            let x_new = (digits_val(cur) * mult) as int;
            let p = pow10(k) as int;
            assert(x_new == x_old + ((f * mult) as int) * p) by (nonlinear_arith)
                requires
                    digits_val(cur) == char_digit(s@[i as int]) * pow10(k) + digits_val(rest),
                    f == char_digit(s@[i as int]),
                    x_old == digits_val(rest) * mult,
                    x_new == digits_val(cur) * mult,
                    p == pow10(k),
            ;
            // hoist the digit's contribution over the denominator
            lemma_hoist_over_denominator(x_old, (f * mult) as int, pow10(k));
            assert(x_new / p == x_old / p + (f * mult) as int);
            assert(x_new / p == t);
            // dividing once more by ten gives the new carry
            vstd::arithmetic::div_mod::lemma_div_denominator(x_new, p, 10);
            assert(pow10((k + 1) as nat) == 10 * pow10(k));
            assert(x_new / pow10((k + 1) as nat) as int == t as int / 10);
            // the new carry stays at or below the multiplier
            vstd::arithmetic::div_mod::lemma_div_is_ordered(t as int, 10 * mult as int, 10);
            vstd::arithmetic::div_mod::lemma_div_multiples_vanish(mult as int, 10);
            assert(t / 10 <= mult);
        }
        c = t / 10;
        r = t % 10;
        proof {
            assert(c == (digits_val(s@.subrange(i as int, to as int)) * mult as nat) / pow10(
                (to - i) as nat,
            ));
        }
    }
    proof {
        if from == to {
            assert(fd =~= Seq::<char>::empty());
            assert(digits_val(fd) * mult == 0) by (nonlinear_arith)
                requires
                    digits_val(fd) == 0,
            ;
            lemma_fundamental_div_mod_converse(pow10(0) as int, 2 * pow10(0) as int, 0, 1);
            assert(spec_half_up(0, pow10(0)) == 0);
        } else {
            lemma_half_up_from_digits(
                (digits_val(fd) * mult) as nat,
                (to - from) as nat,
                c as nat,
                r as nat,
            );
            // the rounded value stays at or below the multiplier
            crate::decimal::lemma_digits_val_bound(fd);
            lemma_pow10_pos((to - from) as nat);
            assert(digits_val(fd) * mult < pow10((to - from) as nat) * mult) by (nonlinear_arith)
                requires
                    digits_val(fd) < pow10((to - from) as nat),
                    mult >= 1,
            ;
            vstd::arithmetic::div_mod::lemma_multiply_divide_lt(
                (digits_val(fd) * mult) as int,
                pow10((to - from) as nat) as int,
                mult as int,
            );
            assert(c < mult);
        }
    }
    if r >= 5 {
        c + 1
    } else {
        c
    }
}

/// Reads a human-readable byte size into a raw count, as [`spec_parse`]
/// states it: a string that trims to a plain integer is taken as a raw
/// count; otherwise the leading run of digits and decimal points is the
/// number and the text after the following whitespace names the unit.
/// The error carries the message [`spec_parse_err`] describes.
#[verifier::rlimit(100)]
pub fn parse_count(s: &str) -> (r: Result<u64, ParseError>)
    ensures
        match r {
            Ok(v) => spec_parse(s@) == Some(v),
            Err(e) => spec_parse(s@) is None && e.0@ == spec_parse_err(s@),
        },
{
    let ghost sv = s@;
    let len = s.unicode_len();
    proof {
        assert(sv.subrange(0, sv.len() as int) =~= sv);
        assert(forall|c: char| #[trigger] space_pred()(c) == is_space_char(c));
        assert(forall|c: char| #[trigger] num_pred()(c) == is_num_char(c));
        assert(forall|c: char| #[trigger] not_dot_pred()(c) == (c != '.'));
        assert(forall|c: char| #[trigger] dot_pred()(c) == (c == '.'));
        assert(forall|c: char| #[trigger] digit_pred()(c) == is_digit_char(c));
    }
    // ---- fast path: the whole trimmed string as a plain integer
    let lead = scan_while(s, 0, crate::text::space_char, Ghost(space_pred()));
    proof {
        crate::scan::lemma_prefix_while_props(sv, space_pred());
    }
    if lead < len {
        let trail = trailing_spaces(s);
        let ghost tseq = spec_trim(sv);
        proof {
            lemma_suffix_space_props(sv);
            assert(!is_space_char(sv[lead as int]));
            if len - trail <= lead {
                assert(is_space_char(sv[lead as int]));
            }
            assert(len - trail > lead);
            assert(tseq =~= sv.subrange(lead as int, len - trail));
        }
        let hi = len - trail;
        let c0 = s.get_char(lead);
        let start: usize = if c0 == '+' {
            lead + 1
        } else {
            lead
        };
        let ghost dseq = spec_plain_digits(tseq);
        proof {
            assert(tseq[0] == c0);
            if c0 == '+' {
                assert(dseq =~= sv.subrange(start as int, hi as int));
            } else {
                assert(dseq =~= sv.subrange(start as int, hi as int));
            }
        }
        if start < hi {
            let e = scan_while(s, start, crate::text::digit_char, Ghost(digit_pred()));
            proof {
                let sub = sv.subrange(start as int, sv.len() as int);
                crate::scan::lemma_prefix_while_props(sub, digit_pred());
                assert forall|j: int| start <= j < e implies is_digit_char(sv[j]) by {
                    assert(sub[j - start] == sv[j]);
                }
                if e < len {
                    assert(sub[e - start] == sv[e as int]);
                    assert(!is_digit_char(sv[e as int]));
                }
            }
            if e >= hi {
                proof {
                    assert forall|i: int| 0 <= i < dseq.len() implies is_digit_char(dseq[i]) by {
                        assert(dseq[i] == sv[start + i]);
                    }
                }
                match digits_to_u64(s, start, hi) {
                    Some(v) => {
                        proof {
                            assert(spec_is_plain_u64(tseq));
                            assert(digits_val(dseq) == v);
                        }
                        return Ok(v);
                    },
                    None => {
                        proof {
                            assert(digits_val(dseq) > u64::MAX);
                            assert(!spec_is_plain_u64(tseq));
                        }
                    },
                }
            } else {
                proof {
                    assert(!is_digit_char(sv[e as int]));
                    assert(dseq[e - start] == sv[e as int]);
                    assert(!spec_is_plain_u64(tseq));
                }
            }
        } else {
            proof {
                assert(dseq.len() == 0);
                assert(!spec_is_plain_u64(tseq));
            }
        }
    } else {
        proof {
            assert(spec_trim(sv).len() == 0);
        }
    }
    proof {
        assert(!spec_is_plain_u64(spec_trim(sv)));
    }
    // ---- number token
    let nlen = scan_while(s, 0, num_char, Ghost(num_pred()));
    let ghost num = spec_number_token(sv);
    proof {
        assert(num =~= sv.subrange(0, nlen as int));
        crate::scan::lemma_prefix_while_props(sv, num_pred());
        assert forall|i: int| 0 <= i < num.len() implies is_num_char(num[i]) by {
            assert(num[i] == sv[i]);
        }
    }
    if nlen == 0 {
        proof {
            assert(!spec_valid_number(num));
        }
        return Err(ParseError(bad_number_msg(s)));
    }
    let p1 = scan_while(s, 0, not_dot, Ghost(not_dot_pred()));
    proof {
        crate::scan::lemma_prefix_while_props(sv, not_dot_pred());
    }
    let dpos: usize = if p1 >= nlen {
        nlen
    } else {
        p1
    };
    proof {
        assert forall|j: int| 0 <= j < dpos implies not_dot_pred()(num[j]) by {
            assert(num[j] == sv[j]);
        }
        if dpos < nlen {
            assert(sv[dpos as int] == '.');
            assert(num[dpos as int] == '.');
        }
        crate::scan::lemma_prefix_while_unique(num, not_dot_pred(), dpos as int);
        assert(spec_dot_pos(num) == dpos);
    }
    let mut fstart: usize = nlen;
    if dpos < nlen {
        let p2 = scan_while(s, dpos + 1, not_dot, Ghost(not_dot_pred()));
        proof {
            let sub = sv.subrange(dpos as int + 1, sv.len() as int);
            crate::scan::lemma_prefix_while_props(sub, not_dot_pred());
            assert forall|j: int| dpos + 1 <= j < p2 implies sv[j] != '.' by {
                assert(sub[j - dpos - 1] == sv[j]);
            }
            if p2 < len {
                assert(sub[p2 - dpos - 1] == sv[p2 as int]);
                assert(sv[p2 as int] == '.');
            }
        }
        if p2 < nlen {
            proof {
                assert(num[p2 as int] == '.');
                lemma_count_matching_two(num, dot_pred(), dpos as int, p2 as int);
                assert(!spec_valid_number(num));
            }
            return Err(ParseError(bad_number_msg(s)));
        }
        if dpos == 0 && nlen == 1 {
            proof {
                assert forall|i: int| 0 <= i < num.len() implies !is_digit_char(num[i]) by {
                    assert(num[i] == sv[i]);
                    assert(sv[0] == '.');
                }
                assert(!spec_valid_number(num));
            }
            return Err(ParseError(bad_number_msg(s)));
        }
        fstart = dpos + 1;
        proof {
            assert forall|i: int| 0 <= i < num.len() && i != dpos implies !dot_pred()(num[i]) by {
                assert(num[i] == sv[i]);
            }
            lemma_count_matching_one(num, dot_pred(), dpos as int);
            if dpos > 0 {
                assert(sv[0] != '.');
                assert(is_digit_char(num[0]));
            } else {
                assert(sv[1] != '.');
                assert(is_digit_char(num[1]));
            }
            assert(spec_valid_number(num));
        }
    } else {
        proof {
            assert forall|i: int| 0 <= i < num.len() implies !dot_pred()(num[i]) by {
                assert(num[i] == sv[i]);
            }
            lemma_count_matching_zero(num, dot_pred());
            assert(is_digit_char(num[0]));
            assert(spec_valid_number(num));
        }
    }
    proof {
        assert(spec_valid_number(num));
        assert(spec_frac_part(num) =~= sv.subrange(fstart as int, nlen as int));
        assert(spec_int_part(num) =~= sv.subrange(0, dpos as int));
        assert forall|j: int| 0 <= j < dpos implies is_digit_char(sv[j]) by {
            assert(num[j] == sv[j]);
        }
        assert forall|j: int| fstart <= j < nlen implies is_digit_char(sv[j]) by {
            assert(num[j] == sv[j]);
        }
    }
    // ---- unit suffix
    let ws_end = scan_while(s, nlen, crate::text::space_char, Ghost(space_pred()));
    let suffix = s.substring_char(ws_end, len);
    proof {
        assert(spec_suffix_start(sv) == ws_end);
        assert(suffix@ =~= spec_suffix_token(sv));
    }
    let u = match unit_of(suffix) {
        Some(u) => u,
        None => {
            return Err(ParseError(bad_unit_msg(suffix)));
        },
    };
    let ghost gu = u;
    let mult = u64::from(u);
    proof {
        assert(mult == spec_unit_mult(gu));
        assert(1 <= mult <= 1_844_674_407_370_955_161);
    }
    let g = frac_round(s, fstart, nlen, mult);
    let iopt = digits_to_u64(s, 0, dpos);
    let ghost a = digits_val(spec_int_part(num));
    let ghost f = digits_val(spec_frac_part(num));
    let ghost d = spec_frac_part(num).len();
    proof {
        lemma_half_up_split(a, f, d, mult as nat);
        assert(g == spec_half_up(f * mult as nat, pow10(d)));
    }
    match iopt {
        None => {
            proof {
                assert(a > u64::MAX);
                assert(a * mult as nat >= a) by (nonlinear_arith)
                    requires
                        mult >= 1,
                ;
                assert(spec_number_count(num, mult as nat) == u64::MAX);
            }
            Ok(u64::MAX)
        },
        Some(iv) => {
            proof {
                assert(iv == a);
                assert((iv as int) * (mult as int) <= 0xfffffffffffffffe0000000000000001int)
                    by (nonlinear_arith)
                    requires
                        0 <= iv <= 0xffffffffffffffffu64,
                        0 <= mult <= 0xffffffffffffffffu64,
                ;
            }
            let total: u128 = (iv as u128) * (mult as u128) + (g as u128);
            if total > u64::MAX as u128 {
                proof {
                    assert(spec_number_count(num, mult as nat) == u64::MAX);
                }
                Ok(u64::MAX)
            } else {
                proof {
                    assert(spec_number_count(num, mult as nat) == total);
                }
                Ok(total as u64)
            }
        },
    }
}

} // verus!
