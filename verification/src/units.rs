//! Unit constants, the unit-system selector and the closed table of unit
//! names accepted by the parser.
use vstd::prelude::*;

verus! {

/// byte size for 1 byte
pub const B: u64 = 1;

/// byte size for 1 kilobyte
pub const KB: u64 = 1_000;

/// byte size for 1 megabyte
pub const MB: u64 = 1_000_000;

/// byte size for 1 gigabyte
pub const GB: u64 = 1_000_000_000;

/// byte size for 1 terabyte
pub const TB: u64 = 1_000_000_000_000;

/// byte size for 1 petabyte
pub const PB: u64 = 1_000_000_000_000_000;

/// byte size for 1 kibibyte
pub const KIB: u64 = 1_024;

/// byte size for 1 mebibyte
pub const MIB: u64 = 1_048_576;

/// byte size for 1 gibibyte
pub const GIB: u64 = 1_073_741_824;

/// byte size for 1 tebibyte
pub const TIB: u64 = 1_099_511_627_776;

/// byte size for 1 pebibyte
pub const PIB: u64 = 1_125_899_906_842_624;

/// Selects the unit system used when rendering a byte count: IEC scales by
/// powers of 1024 ("KiB", "MiB", ...), SI by powers of 1000 ("kB", "MB", ...).
#[derive(Debug, Clone, Default)]
pub enum Format {
    #[default]
    IEC,
    SI,
}

/// One entry of the closed table of unit names the parser accepts.
pub enum Unit {
    Byte,
    // powers of ten
    KiloByte,
    MegaByte,
    GigaByte,
    TeraByte,
    PetaByte,
    // powers of two
    KibiByte,
    MebiByte,
    GibiByte,
    TebiByte,
    PebiByte,
}

/// The number of bytes one unit stands for.
pub open spec fn spec_unit_mult(unit: Unit) -> u64 {
    match unit {
        Unit::Byte => B,
        Unit::KiloByte => KB,
        Unit::MegaByte => MB,
        Unit::GigaByte => GB,
        Unit::TeraByte => TB,
        Unit::PetaByte => PB,
        Unit::KibiByte => KIB,
        Unit::MebiByte => MIB,
        Unit::GibiByte => GIB,
        Unit::TebiByte => TIB,
        Unit::PebiByte => PIB,
    }
}

impl From<Unit> for u64 {
    fn from(unit: Unit) -> (r: u64) {
        match unit {
            Unit::Byte => B,
            Unit::KiloByte => KB,
            Unit::MegaByte => MB,
            Unit::GigaByte => GB,
            Unit::TeraByte => TB,
            Unit::PetaByte => PB,
            Unit::KibiByte => KIB,
            Unit::MebiByte => MIB,
            Unit::GibiByte => GIB,
            Unit::TebiByte => TIB,
            Unit::PebiByte => PIB,
        }
    }
}

impl vstd::std_specs::convert::FromSpecImpl<Unit> for u64 {
    open spec fn obeys_from_spec() -> bool {
        true
    }

    open spec fn from_spec(unit: Unit) -> u64 {
        spec_unit_mult(unit)
    }
}

} // verus!
