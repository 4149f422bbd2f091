//! Rendering a byte count as a human-readable string, and padding such
//! strings into fixed-width fields.
use vstd::arithmetic::div_mod::lemma_div_is_ordered;
use vstd::arithmetic::div_mod::lemma_div_is_ordered_by_denominator;
use vstd::prelude::*;
use vstd::string::StrSliceExecFns;
use vstd::string::StringExecFns;

use crate::decimal::push_dec;
use crate::decimal::spec_dec;
use crate::decimal::spec_digit_char;
use crate::decimal::to_digit_char;
use crate::text::push_char;
use crate::units::Format;
use crate::units::GB;
use crate::units::GIB;
use crate::units::KB;
use crate::units::KIB;
use crate::units::MB;
use crate::units::MIB;
use crate::units::PB;
use crate::units::PIB;
use crate::units::TB;
use crate::units::TIB;

verus! {

/// The base of the unit system: 1024 for IEC, 1000 for SI.  Counts below
/// the base are printed as plain bytes.
pub open spec fn spec_base(f: Format) -> u64 {
    match f {
        Format::IEC => KIB,
        Format::SI => KB,
    }
}

/// The scale exponent used to render `bytes`: the floor of the logarithm of
/// `bytes` in the system's base, clamped to the range of the named units
/// (1 for kilo/kibi up to 5 for peta/pebi; counts beyond the largest named
/// unit stay at 5 rather than indexing past the table).
pub open spec fn spec_exp(bytes: u64, f: Format) -> nat
    recommends
        bytes >= spec_base(f),
{
    match f {
        Format::IEC => if bytes < MIB {
            1
        } else if bytes < GIB {
            2
        } else if bytes < TIB {
            3
        } else if bytes < PIB {
            4
        } else {
            5
        },
        Format::SI => if bytes < MB {
            1
        } else if bytes < GB {
            2
        } else if bytes < TB {
            3
        } else if bytes < PB {
            4
        } else {
            5
        },
    }
}

/// The system's base raised to the exponent: the divisor that scales the
/// count down to the printed value.
pub open spec fn spec_divisor(f: Format, e: nat) -> u64
    recommends
        1 <= e <= 5,
{
    match f {
        Format::IEC => if e <= 1 {
            KIB
        } else if e == 2 {
            MIB
        } else if e == 3 {
            GIB
        } else if e == 4 {
            TIB
        } else {
            PIB
        },
        Format::SI => if e <= 1 {
            KB
        } else if e == 2 {
            MB
        } else if e == 3 {
            GB
        } else if e == 4 {
            TB
        } else {
            PB
        },
    }
}

/// The scaled value in tenths: `10 * bytes / d`, rounded to the nearest
/// integer with ties going to the even integer.
pub open spec fn spec_tenths(bytes: u64, d: u64) -> nat
    recommends
        d >= 1,
{
    let t = 10 * (bytes as nat);
    let q = t / (d as nat);
    let r = t % (d as nat);
    if 2 * r > d {
        q + 1
    } else if 2 * r < d {
        q
    } else {
        q + q % 2
    }
}

/// The unit name printed after the scaled value.
pub open spec fn spec_unit_name(f: Format, e: nat) -> Seq<char>
    recommends
        1 <= e <= 5,
{
    match f {
        Format::IEC => if e <= 1 {
            seq!['K', 'i', 'B']
        } else if e == 2 {
            seq!['M', 'i', 'B']
        } else if e == 3 {
            seq!['G', 'i', 'B']
        } else if e == 4 {
            seq!['T', 'i', 'B']
        } else {
            seq!['P', 'i', 'B']
        },
        Format::SI => if e <= 1 {
            seq!['k', 'B']
        } else if e == 2 {
            seq!['M', 'B']
        } else if e == 3 {
            seq!['G', 'B']
        } else if e == 4 {
            seq!['T', 'B']
        } else {
            seq!['P', 'B']
        },
    }
}

/// A byte count rendered as a human-readable string.  Counts below the
/// system's base print as `"<count> B"` with no fractional digit; larger
/// counts print as the count divided by base^e with exactly one fractional
/// digit, a space, and the unit name.
pub open spec fn spec_to_string(bytes: u64, f: Format) -> Seq<char> {
    if bytes < spec_base(f) {
        spec_dec(bytes as nat) + seq![' ', 'B']
    } else {
        let e = spec_exp(bytes, f);
        let t = spec_tenths(bytes, spec_divisor(f, e));
        spec_dec(t / 10) + seq!['.', spec_digit_char(t % 10), ' '] + spec_unit_name(f, e)
    }
}

/// Where the fill characters go when a string is padded to a fixed width.
#[derive(Clone, Copy, Debug)]
pub enum Alignment {
    Left,
    Right,
    Center,
}

/// `n` copies of one fill character.
pub open spec fn spec_fill(n: nat, c: char) -> Seq<char>
    decreases n,
{
    if n == 0 {
        Seq::<char>::empty()
    } else {
        spec_fill((n - 1) as nat, c).push(c)
    }
}

/// `s` padded with `fill` to `width` characters: unchanged when already
/// wide enough; otherwise the fill goes to the right (Left), to the left
/// (Right), or is split with the odd character on the right (Center).
pub open spec fn spec_pad(s: Seq<char>, width: nat, fill: char, align: Alignment) -> Seq<char> {
    if s.len() >= width {
        s
    } else {
        let total = (width - s.len()) as nat;
        match align {
            Alignment::Left => s + spec_fill(total, fill),
            Alignment::Right => spec_fill(total, fill) + s,
            Alignment::Center => spec_fill(total / 2, fill) + s + spec_fill(
                (total - total / 2) as nat,
                fill,
            ),
        }
    }
}

/// Appends `n` copies of `c` to `out`.
fn push_fill(out: &mut String, n: usize, c: char)
    ensures
        final(out)@ == old(out)@ + spec_fill(n as nat, c),
{
    let mut i: usize = 0;
    proof {
        assert(out@ =~= old(out)@ + spec_fill(0, c));
    }
    while i < n
        invariant
            i <= n,
            out@ == old(out)@ + spec_fill(i as nat, c),
        decreases n - i,
    {
        push_char(out, c);
        i = i + 1;
        proof {
            assert(out@ =~= old(out)@ + spec_fill(i as nat, c));
        }
    }
}

/// Pads `s` with `fill` into a field `width` characters wide, as
/// [`spec_pad`] describes; a string already `width` or more characters
/// long comes back unchanged.
pub fn pad_str(s: &str, width: usize, fill: char, align: Alignment) -> (r: String)
    ensures
        r@ == spec_pad(s@, width as nat, fill, align),
{
    let len = s.unicode_len();
    if len >= width {
        s.to_owned()
    } else {
        let total = width - len;
        match align {
            Alignment::Left => {
                let mut r = s.to_owned();
                push_fill(&mut r, total, fill);
                r
            },
            Alignment::Right => {
                let mut r = String::new();
                push_fill(&mut r, total, fill);
                r.append(s);
                proof {
                    assert(r@ =~= spec_pad(s@, width as nat, fill, align));
                }
                r
            },
            Alignment::Center => {
                let mut r = String::new();
                push_fill(&mut r, total / 2, fill);
                r.append(s);
                push_fill(&mut r, total - total / 2, fill);
                proof {
                    assert(r@ =~= spec_pad(s@, width as nat, fill, align));
                }
                r
            },
        }
    }
}

/// Exec mirror of [`spec_unit_name`].
fn unit_name(f: &Format, e: u64) -> (r: &'static str)
    requires
        1 <= e <= 5,
    ensures
        r@ == spec_unit_name(*f, e as nat),
{
    match f {
        Format::IEC => {
            if e == 1 {
                proof {
                    reveal_strlit("KiB");
                }
                "KiB"
            } else if e == 2 {
                proof {
                    reveal_strlit("MiB");
                }
                "MiB"
            } else if e == 3 {
                proof {
                    reveal_strlit("GiB");
                }
                "GiB"
            } else if e == 4 {
                proof {
                    reveal_strlit("TiB");
                }
                "TiB"
            } else {
                proof {
                    reveal_strlit("PiB");
                }
                "PiB"
            }
        },
        Format::SI => {
            if e == 1 {
                proof {
                    reveal_strlit("kB");
                }
                "kB"
            } else if e == 2 {
                proof {
                    reveal_strlit("MB");
                }
                "MB"
            } else if e == 3 {
                proof {
                    reveal_strlit("GB");
                }
                "GB"
            } else if e == 4 {
                proof {
                    reveal_strlit("TB");
                }
                "TB"
            } else {
                proof {
                    reveal_strlit("PB");
                }
                "PB"
            }
        },
    }
}

/// Renders `bytes` as a human-readable string in the chosen unit system,
/// e.g. `"215 B"`, `"1.0 KiB"` or `"399.6 MiB"`.
pub fn to_string(bytes: u64, format: Format) -> (s: String)
    ensures
        s@ == spec_to_string(bytes, format),
{
    let base: u64 = match format {
        Format::IEC => KIB,
        Format::SI => KB,
    };
    if bytes < base {
        let mut s = String::new();
        push_dec(&mut s, bytes);
        s.append(" B");
        proof {
            reveal_strlit(" B");
            assert(s@ =~= spec_to_string(bytes, format));
        }
        s
    } else {
        let e: u64 = match format {
            Format::IEC => if bytes < MIB {
                1
            } else if bytes < GIB {
                2
            } else if bytes < TIB {
                3
            } else if bytes < PIB {
                4
            } else {
                5
            },
            Format::SI => if bytes < MB {
                1
            } else if bytes < GB {
                2
            } else if bytes < TB {
                3
            } else if bytes < PB {
                4
            } else {
                5
            },
        };
        let d: u64 = match format {
            Format::IEC => if e == 1 {
                KIB
            } else if e == 2 {
                MIB
            } else if e == 3 {
                GIB
            } else if e == 4 {
                TIB
            } else {
                PIB
            },
            Format::SI => if e == 1 {
                KB
            } else if e == 2 {
                MB
            } else if e == 3 {
                GB
            } else if e == 4 {
                TB
            } else {
                PB
            },
        };
        let t10: u128 = 10 * (bytes as u128);
        let q: u128 = t10 / (d as u128);
        let r: u128 = t10 % (d as u128);
        proof {
            lemma_div_is_ordered_by_denominator(t10 as int, 1000, d as int);
            lemma_div_is_ordered(t10 as int, 184467440737095516150, 1000);
            vstd::arithmetic::div_mod::lemma_fundamental_div_mod_converse(
                184467440737095516150,
                1000,
                184467440737095516,
                150,
            );
            assert(q <= 184467440737095516);
        }
        let t: u64 = if 2 * r > d as u128 {
            (q + 1) as u64
        } else if 2 * r < d as u128 {
            q as u64
        } else {
            (q + q % 2) as u64
        };
        assert(t as nat == spec_tenths(bytes, d));
        let mut s = String::new();
        push_dec(&mut s, t / 10);
        push_char(&mut s, '.');
        push_char(&mut s, to_digit_char(t % 10));
        push_char(&mut s, ' ');
        s.append(unit_name(&format, e));
        proof {
            assert(e as nat == spec_exp(bytes, format));
            assert(d == spec_divisor(format, e as nat));
            assert(s@ =~= spec_to_string(bytes, format));
        }
        s
    }
}

} // verus!
