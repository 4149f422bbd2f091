//! The byte-count value type: unit constructors, saturating arithmetic,
//! comparisons, accessors, and rendering and parsing through the
//! formatter and parser.
use core::cmp::Ordering;
use vstd::prelude::*;

use crate::parse::parse_count;
use crate::parse::spec_parse;
use crate::parse::spec_parse_err;
use crate::parse::ParseError;
use crate::render::pad_str;
use crate::render::spec_pad;
use crate::render::spec_to_string;
use crate::render::to_string;
use crate::render::Alignment;
use crate::units::Format;
use crate::units::GB;
use crate::units::GIB;
use crate::units::KB;
use crate::units::KIB;
use crate::units::MB;
use crate::units::MIB;
use crate::units::PB;
use crate::units::PIB;
use crate::units::TB;
use crate::units::TIB;

verus! {

/// `a + b`, saturating at the largest representable count.
pub open spec fn sat_add(a: u64, b: u64) -> u64 {
    if a + b > u64::MAX {
        u64::MAX
    } else {
        (a + b) as u64
    }
}

/// `a - b`, saturating at zero: a count never wraps below zero.
pub open spec fn sat_sub(a: u64, b: u64) -> u64 {
    if a >= b {
        (a - b) as u64
    } else {
        0
    }
}

/// `a * b`, saturating at the largest representable count.
pub open spec fn sat_mul(a: u64, b: u64) -> u64 {
    if a * b > u64::MAX {
        u64::MAX
    } else {
        (a * b) as u64
    }
}

/// A new-type for byte sizes, providing convenient constructors, saturating
/// arithmetic, conversions, rendering and parsing.  Ordering and equality
/// go by the wrapped count alone.
#[derive(Copy, Clone, Debug, Hash, PartialEq, Eq, Structural)]
pub struct ByteScale(pub u64);

impl ByteScale {
    /// Construct `ByteScale` given an amount of bytes.
    pub fn b(size: u64) -> (r: ByteScale)
        ensures
            r.0 == size,
    {
        ByteScale(size)
    }

    /// Construct `ByteScale` given an amount of kilobytes; the count
    /// saturates at the largest representable value.
    pub fn kb(size: u64) -> (r: ByteScale)
        ensures
            r.0 == sat_mul(size, KB),
    {
        match size.checked_mul(KB) {
            Some(v) => ByteScale(v),
            None => ByteScale(u64::MAX),
        }
    }

    /// Construct `ByteScale` given an amount of kibibytes; the count
    /// saturates at the largest representable value.
    pub fn kib(size: u64) -> (r: ByteScale)
        ensures
            r.0 == sat_mul(size, KIB),
    {
        match size.checked_mul(KIB) {
            Some(v) => ByteScale(v),
            None => ByteScale(u64::MAX),
        }
    }

    /// Construct `ByteScale` given an amount of megabytes; the count
    /// saturates at the largest representable value.
    pub fn mb(size: u64) -> (r: ByteScale)
        ensures
            r.0 == sat_mul(size, MB),
    {
        match size.checked_mul(MB) {
            Some(v) => ByteScale(v),
            None => ByteScale(u64::MAX),
        }
    }

    /// Construct `ByteScale` given an amount of mebibytes; the count
    /// saturates at the largest representable value.
    pub fn mib(size: u64) -> (r: ByteScale)
        ensures
            r.0 == sat_mul(size, MIB),
    {
        match size.checked_mul(MIB) {
            Some(v) => ByteScale(v),
            None => ByteScale(u64::MAX),
        }
    }

    /// Construct `ByteScale` given an amount of gigabytes; the count
    /// saturates at the largest representable value.
    pub fn gb(size: u64) -> (r: ByteScale)
        ensures
            r.0 == sat_mul(size, GB),
    {
        match size.checked_mul(GB) {
            Some(v) => ByteScale(v),
            None => ByteScale(u64::MAX),
        }
    }

    /// Construct `ByteScale` given an amount of gibibytes; the count
    /// saturates at the largest representable value.
    pub fn gib(size: u64) -> (r: ByteScale)
        ensures
            r.0 == sat_mul(size, GIB),
    {
        match size.checked_mul(GIB) {
            Some(v) => ByteScale(v),
            None => ByteScale(u64::MAX),
        }
    }

    /// Construct `ByteScale` given an amount of terabytes; the count
    /// saturates at the largest representable value.
    pub fn tb(size: u64) -> (r: ByteScale)
        ensures
            r.0 == sat_mul(size, TB),
    {
        match size.checked_mul(TB) {
            Some(v) => ByteScale(v),
            None => ByteScale(u64::MAX),
        }
    }

    /// Construct `ByteScale` given an amount of tebibytes; the count
    /// saturates at the largest representable value.
    pub fn tib(size: u64) -> (r: ByteScale)
        ensures
            r.0 == sat_mul(size, TIB),
    {
        match size.checked_mul(TIB) {
            Some(v) => ByteScale(v),
            None => ByteScale(u64::MAX),
        }
    }

    /// Construct `ByteScale` given an amount of petabytes; the count
    /// saturates at the largest representable value.
    pub fn pb(size: u64) -> (r: ByteScale)
        ensures
            r.0 == sat_mul(size, PB),
    {
        match size.checked_mul(PB) {
            Some(v) => ByteScale(v),
            None => ByteScale(u64::MAX),
        }
    }

    /// Construct `ByteScale` given an amount of pebibytes; the count
    /// saturates at the largest representable value.
    pub fn pib(size: u64) -> (r: ByteScale)
        ensures
            r.0 == sat_mul(size, PIB),
    {
        match size.checked_mul(PIB) {
            Some(v) => ByteScale(v),
            None => ByteScale(u64::MAX),
        }
    }

    /// Returns the inner `u64` value.
    pub fn as_u64(&self) -> (r: u64)
        ensures
            r == self.0,
    {
        self.0
    }

    /// Returns the count as a `u32` when it fits, and nothing otherwise.
    pub fn as_u32(&self) -> (r: Option<u32>)
        ensures
            self.0 <= u32::MAX ==> r == Some(self.0 as u32),
            self.0 > u32::MAX ==> r is None,
    {
        if self.0 <= u32::MAX as u64 {
            Some(self.0 as u32)
        } else {
            None
        }
    }

    /// Returns the count as a `usize` when it fits, and nothing otherwise.
    pub fn as_usize(&self) -> (r: Option<usize>)
        ensures
            self.0 <= usize::MAX ==> r == Some(self.0 as usize),
            self.0 > usize::MAX ==> r is None,
    {
        if self.0 <= usize::MAX as u64 {
            Some(self.0 as usize)
        } else {
            None
        }
    }

    /// Returns the size as a string with an optional unit, in the chosen
    /// unit system.
    pub fn to_string_as(&self, format: Format) -> (r: String)
        ensures
            r@ == spec_to_string(self.0, format),
    {
        to_string(self.0, format)
    }

    /// The IEC rendering of the size, padded with `fill` into a field
    /// `width` characters wide.
    pub fn to_string_aligned(&self, width: usize, fill: char, align: Alignment) -> (r: String)
        ensures
            r@ == spec_pad(spec_to_string(self.0, Format::IEC), width as nat, fill, align),
    {
        let s = to_string(self.0, Format::IEC);
        pad_str(s.as_str(), width, fill, align)
    }

    /// Parses a human-readable byte size, as [`spec_parse`] states it.
    pub fn parse(value: &str) -> (r: Result<ByteScale, ParseError>)
        ensures
            match r {
                Ok(b) => spec_parse(value@) == Some(b.0),
                Err(e) => spec_parse(value@) is None && e.0@ == spec_parse_err(value@),
            },
    {
        match parse_count(value) {
            Ok(v) => Ok(ByteScale(v)),
            Err(e) => Err(e),
        }
    }
}

impl core::str::FromStr for ByteScale {
    type Err = String;

    fn from_str(value: &str) -> Result<ByteScale, String> {
        match ByteScale::parse(value) {
            Ok(b) => Ok(b),
            Err(e) => Err(e.0),
        }
    }
}

impl From<u64> for ByteScale {
    fn from(size: u64) -> (r: ByteScale) {
        ByteScale(size)
    }
}

impl vstd::std_specs::convert::FromSpecImpl<u64> for ByteScale {
    open spec fn obeys_from_spec() -> bool {
        true
    }

    open spec fn from_spec(size: u64) -> ByteScale {
        ByteScale(size)
    }
}

impl Default for ByteScale {
    /// The default byte size is zero bytes.
    fn default() -> (r: ByteScale)
        ensures
            r == ByteScale(0),
    {
        ByteScale(0)
    }
}

impl PartialOrd for ByteScale {
    fn partial_cmp(&self, other: &ByteScale) -> (r: Option<Ordering>) {
        if self.0 < other.0 {
            Some(Ordering::Less)
        } else if self.0 == other.0 {
            Some(Ordering::Equal)
        } else {
            Some(Ordering::Greater)
        }
    }
}

impl vstd::std_specs::cmp::PartialOrdSpecImpl for ByteScale {
    open spec fn obeys_partial_cmp_spec() -> bool {
        true
    }

    open spec fn partial_cmp_spec(&self, other: &ByteScale) -> Option<Ordering> {
        if self.0 < other.0 {
            Some(Ordering::Less)
        } else if self.0 == other.0 {
            Some(Ordering::Equal)
        } else {
            Some(Ordering::Greater)
        }
    }
}

impl core::ops::Add<ByteScale> for ByteScale {
    type Output = ByteScale;

    fn add(self, rhs: ByteScale) -> ByteScale {
        ByteScale(self.0.saturating_add(rhs.0))
    }
}

impl vstd::std_specs::ops::AddSpecImpl<ByteScale> for ByteScale {
    open spec fn obeys_add_spec() -> bool {
        true
    }

    open spec fn add_req(self, rhs: ByteScale) -> bool {
        true
    }

    open spec fn add_spec(self, rhs: ByteScale) -> ByteScale {
        ByteScale(sat_add(self.0, rhs.0))
    }
}

impl core::ops::Sub<ByteScale> for ByteScale {
    type Output = ByteScale;

    fn sub(self, rhs: ByteScale) -> ByteScale {
        ByteScale(self.0.saturating_sub(rhs.0))
    }
}

impl vstd::std_specs::ops::SubSpecImpl<ByteScale> for ByteScale {
    open spec fn obeys_sub_spec() -> bool {
        true
    }

    open spec fn sub_req(self, rhs: ByteScale) -> bool {
        true
    }

    open spec fn sub_spec(self, rhs: ByteScale) -> ByteScale {
        ByteScale(sat_sub(self.0, rhs.0))
    }
}

impl core::ops::Add<u64> for ByteScale {
    type Output = ByteScale;

    fn add(self, rhs: u64) -> ByteScale {
        ByteScale(self.0.saturating_add(rhs))
    }
}

impl vstd::std_specs::ops::AddSpecImpl<u64> for ByteScale {
    open spec fn obeys_add_spec() -> bool {
        true
    }

    open spec fn add_req(self, rhs: u64) -> bool {
        true
    }

    open spec fn add_spec(self, rhs: u64) -> ByteScale {
        ByteScale(sat_add(self.0, rhs))
    }
}

impl core::ops::Add<u32> for ByteScale {
    type Output = ByteScale;

    fn add(self, rhs: u32) -> ByteScale {
        ByteScale(self.0.saturating_add(rhs as u64))
    }
}

impl vstd::std_specs::ops::AddSpecImpl<u32> for ByteScale {
    open spec fn obeys_add_spec() -> bool {
        true
    }

    open spec fn add_req(self, rhs: u32) -> bool {
        true
    }

    open spec fn add_spec(self, rhs: u32) -> ByteScale {
        ByteScale(sat_add(self.0, rhs as u64))
    }
}

impl core::ops::Add<u16> for ByteScale {
    type Output = ByteScale;

    fn add(self, rhs: u16) -> ByteScale {
        ByteScale(self.0.saturating_add(rhs as u64))
    }
}

impl vstd::std_specs::ops::AddSpecImpl<u16> for ByteScale {
    open spec fn obeys_add_spec() -> bool {
        true
    }

    open spec fn add_req(self, rhs: u16) -> bool {
        true
    }

    open spec fn add_spec(self, rhs: u16) -> ByteScale {
        ByteScale(sat_add(self.0, rhs as u64))
    }
}

impl core::ops::Add<u8> for ByteScale {
    type Output = ByteScale;

    fn add(self, rhs: u8) -> ByteScale {
        ByteScale(self.0.saturating_add(rhs as u64))
    }
}

impl vstd::std_specs::ops::AddSpecImpl<u8> for ByteScale {
    open spec fn obeys_add_spec() -> bool {
        true
    }

    open spec fn add_req(self, rhs: u8) -> bool {
        true
    }

    open spec fn add_spec(self, rhs: u8) -> ByteScale {
        ByteScale(sat_add(self.0, rhs as u64))
    }
}

impl core::ops::Sub<u64> for ByteScale {
    type Output = ByteScale;

    fn sub(self, rhs: u64) -> ByteScale {
        ByteScale(self.0.saturating_sub(rhs))
    }
}

impl vstd::std_specs::ops::SubSpecImpl<u64> for ByteScale {
    open spec fn obeys_sub_spec() -> bool {
        true
    }

    open spec fn sub_req(self, rhs: u64) -> bool {
        true
    }

    open spec fn sub_spec(self, rhs: u64) -> ByteScale {
        ByteScale(sat_sub(self.0, rhs))
    }
}

impl core::ops::Sub<u32> for ByteScale {
    type Output = ByteScale;

    fn sub(self, rhs: u32) -> ByteScale {
        ByteScale(self.0.saturating_sub(rhs as u64))
    }
}

impl vstd::std_specs::ops::SubSpecImpl<u32> for ByteScale {
    open spec fn obeys_sub_spec() -> bool {
        true
    }

    open spec fn sub_req(self, rhs: u32) -> bool {
        true
    }

    open spec fn sub_spec(self, rhs: u32) -> ByteScale {
        ByteScale(sat_sub(self.0, rhs as u64))
    }
}

impl core::ops::Sub<u16> for ByteScale {
    type Output = ByteScale;

    fn sub(self, rhs: u16) -> ByteScale {
        ByteScale(self.0.saturating_sub(rhs as u64))
    }
}

impl vstd::std_specs::ops::SubSpecImpl<u16> for ByteScale {
    open spec fn obeys_sub_spec() -> bool {
        true
    }

    open spec fn sub_req(self, rhs: u16) -> bool {
        true
    }

    open spec fn sub_spec(self, rhs: u16) -> ByteScale {
        ByteScale(sat_sub(self.0, rhs as u64))
    }
}

impl core::ops::Sub<u8> for ByteScale {
    type Output = ByteScale;

    fn sub(self, rhs: u8) -> ByteScale {
        ByteScale(self.0.saturating_sub(rhs as u64))
    }
}

impl vstd::std_specs::ops::SubSpecImpl<u8> for ByteScale {
    open spec fn obeys_sub_spec() -> bool {
        true
    }

    open spec fn sub_req(self, rhs: u8) -> bool {
        true
    }

    open spec fn sub_spec(self, rhs: u8) -> ByteScale {
        ByteScale(sat_sub(self.0, rhs as u64))
    }
}

impl core::ops::AddAssign<ByteScale> for ByteScale {
    fn add_assign(&mut self, rhs: ByteScale)
        ensures
            final(self).0 == sat_add(old(self).0, rhs.0),
    {
        self.0 = self.0.saturating_add(rhs.0);
    }
}

impl core::ops::AddAssign<u64> for ByteScale {
    fn add_assign(&mut self, rhs: u64)
        ensures
            final(self).0 == sat_add(old(self).0, rhs),
    {
        self.0 = self.0.saturating_add(rhs);
    }
}

impl core::ops::AddAssign<u32> for ByteScale {
    fn add_assign(&mut self, rhs: u32)
        ensures
            final(self).0 == sat_add(old(self).0, rhs as u64),
    {
        self.0 = self.0.saturating_add(rhs as u64);
    }
}

impl core::ops::AddAssign<u16> for ByteScale {
    fn add_assign(&mut self, rhs: u16)
        ensures
            final(self).0 == sat_add(old(self).0, rhs as u64),
    {
        self.0 = self.0.saturating_add(rhs as u64);
    }
}

impl core::ops::AddAssign<u8> for ByteScale {
    fn add_assign(&mut self, rhs: u8)
        ensures
            final(self).0 == sat_add(old(self).0, rhs as u64),
    {
        self.0 = self.0.saturating_add(rhs as u64);
    }
}

impl core::ops::SubAssign<ByteScale> for ByteScale {
    fn sub_assign(&mut self, rhs: ByteScale)
        ensures
            final(self).0 == sat_sub(old(self).0, rhs.0),
    {
        self.0 = self.0.saturating_sub(rhs.0);
    }
}

impl core::ops::SubAssign<u64> for ByteScale {
    fn sub_assign(&mut self, rhs: u64)
        ensures
            final(self).0 == sat_sub(old(self).0, rhs),
    {
        self.0 = self.0.saturating_sub(rhs);
    }
}

impl core::ops::SubAssign<u32> for ByteScale {
    fn sub_assign(&mut self, rhs: u32)
        ensures
            final(self).0 == sat_sub(old(self).0, rhs as u64),
    {
        self.0 = self.0.saturating_sub(rhs as u64);
    }
}

impl core::ops::MulAssign<u64> for ByteScale {
    fn mul_assign(&mut self, rhs: u64)
        ensures
            final(self).0 == sat_mul(old(self).0, rhs),
    {
        self.0 = match self.0.checked_mul(rhs) {
            Some(v) => v,
            None => u64::MAX,
        };
    }
}

impl core::ops::MulAssign<u32> for ByteScale {
    fn mul_assign(&mut self, rhs: u32)
        ensures
            final(self).0 == sat_mul(old(self).0, rhs as u64),
    {
        self.0 = match self.0.checked_mul(rhs as u64) {
            Some(v) => v,
            None => u64::MAX,
        };
    }
}

impl core::ops::Mul<u64> for ByteScale {
    type Output = ByteScale;

    fn mul(self, rhs: u64) -> ByteScale {
        match self.0.checked_mul(rhs) {
            Some(v) => ByteScale(v),
            None => ByteScale(u64::MAX),
        }
    }
}

impl vstd::std_specs::ops::MulSpecImpl<u64> for ByteScale {
    open spec fn obeys_mul_spec() -> bool {
        true
    }

    open spec fn mul_req(self, rhs: u64) -> bool {
        true
    }

    open spec fn mul_spec(self, rhs: u64) -> ByteScale {
        ByteScale(sat_mul(self.0, rhs))
    }
}

impl core::ops::Mul<u32> for ByteScale {
    type Output = ByteScale;

    fn mul(self, rhs: u32) -> ByteScale {
        match self.0.checked_mul(rhs as u64) {
            Some(v) => ByteScale(v),
            None => ByteScale(u64::MAX),
        }
    }
}

impl vstd::std_specs::ops::MulSpecImpl<u32> for ByteScale {
    open spec fn obeys_mul_spec() -> bool {
        true
    }

    open spec fn mul_req(self, rhs: u32) -> bool {
        true
    }

    open spec fn mul_spec(self, rhs: u32) -> ByteScale {
        ByteScale(sat_mul(self.0, rhs as u64))
    }
}

} // verus!
