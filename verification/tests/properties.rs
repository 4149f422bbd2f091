use bytescale::pad_str;
use bytescale::skip_while;
use bytescale::take_while;
use bytescale::to_string;
use bytescale::Alignment;
use bytescale::ByteScale;
use bytescale::Format;
use bytescale::HumanByteRange;
use bytescale::Unit;
use bytescale::GIB;
use bytescale::KIB;
use bytescale::MIB;
use bytescale::PB;
use bytescale::PIB;
use bytescale::TB;

#[test]
fn test_unit_constructors() {
    assert_eq!(ByteScale::kb(1), ByteScale::b(1000));
    assert_eq!(ByteScale::kib(1), ByteScale::b(1024));
    assert_eq!(ByteScale::mb(1), ByteScale::b(1_000_000));
    assert_eq!(ByteScale::mib(1), ByteScale::b(1_048_576));
    assert_eq!(ByteScale::gb(1), ByteScale::b(1_000_000_000));
    assert_eq!(ByteScale::gib(1), ByteScale::b(1_073_741_824));
    assert_eq!(ByteScale::tb(1), ByteScale::b(1_000_000_000_000));
    assert_eq!(ByteScale::tib(1), ByteScale::b(1_099_511_627_776));
    assert_eq!(ByteScale::pb(1), ByteScale::b(1_000_000_000_000_000));
    assert_eq!(ByteScale::pib(1), ByteScale::b(1_125_899_906_842_624));
}

#[test]
fn test_round_trip_exact_below_base() {
    for n in [0u64, 1, 215, 357, 999, 1023] {
        let s = ByteScale::b(n).to_string_as(Format::IEC);
        let back = s.parse::<ByteScale>().unwrap();
        assert_eq!(back, ByteScale::b(n));
    }
}

#[test]
fn test_round_trip_close_above_base() {
    for n in [
        1024u64,
        1025,
        4096,
        123_456,
        123_456_789,
        987_654_321_012,
        1_125_899_906_842_624,
        u64::MAX,
    ] {
        let s = ByteScale::b(n).to_string_as(Format::IEC);
        let m = s.parse::<ByteScale>().unwrap().as_u64();
        let diff = if m >= n { m - n } else { n - m };
        assert!(20 * (diff as u128) <= n as u128 + 10);
    }
}

#[test]
fn test_parse_values() {
    assert_eq!("5 B".parse::<ByteScale>().unwrap(), ByteScale::b(5));
    assert_eq!("2.5 MiB".parse::<ByteScale>().unwrap(), ByteScale::b(2_621_440));
    assert_eq!("1 MiB".parse::<ByteScale>().unwrap(), ByteScale::mib(1));
    assert_eq!("1048576".parse::<ByteScale>().unwrap(), ByteScale::mib(1));
    assert_eq!("+42".parse::<ByteScale>().unwrap(), ByteScale::b(42));
    assert_eq!("  42  ".parse::<ByteScale>().unwrap(), ByteScale::b(42));
    assert_eq!(".5 kb".parse::<ByteScale>().unwrap(), ByteScale::b(500));
    assert_eq!("5. K".parse::<ByteScale>().unwrap(), ByteScale::kb(5));
    assert_eq!("1 kIb".parse::<ByteScale>().unwrap(), ByteScale::kib(1));
    assert_eq!("100 pb".parse::<ByteScale>().unwrap(), ByteScale::pb(100));
    // the scaled value rounds to the nearest count, halves upward
    assert_eq!("0.0005 kb".parse::<ByteScale>().unwrap(), ByteScale::b(1));
    assert_eq!("1.5 b".parse::<ByteScale>().unwrap(), ByteScale::b(2));
}

#[test]
fn test_parse_unit_tokens() {
    let cases: Vec<(&str, u64)> = vec![
        ("b", 1),
        ("k", 1_000),
        ("kb", 1_000),
        ("m", 1_000_000),
        ("mb", 1_000_000),
        ("g", 1_000_000_000),
        ("gb", 1_000_000_000),
        ("t", 1_000_000_000_000),
        ("tb", 1_000_000_000_000),
        ("p", 1_000_000_000_000_000),
        ("pb", 1_000_000_000_000_000),
        ("ki", 1u64 << 10),
        ("kib", 1u64 << 10),
        ("mi", 1u64 << 20),
        ("mib", 1u64 << 20),
        ("gi", 1u64 << 30),
        ("gib", 1u64 << 30),
        ("ti", 1u64 << 40),
        ("tib", 1u64 << 40),
        ("pi", 1u64 << 50),
        ("pib", 1u64 << 50),
    ];
    for (tok, mult) in cases {
        let lower = format!("1 {}", tok);
        assert_eq!(lower.parse::<ByteScale>().unwrap(), ByteScale::b(mult));
        let upper = format!("1 {}", tok.to_uppercase());
        assert_eq!(upper.parse::<ByteScale>().unwrap(), ByteScale::b(mult));
    }
    assert!("1 bb".parse::<ByteScale>().is_err());
    assert!("1 kbb".parse::<ByteScale>().is_err());
}

#[test]
fn test_parse_saturates() {
    assert_eq!(
        "99999999999999999999999 B".parse::<ByteScale>().unwrap(),
        ByteScale::b(u64::MAX)
    );
    assert_eq!(
        "999999999999999 PiB".parse::<ByteScale>().unwrap(),
        ByteScale::b(u64::MAX)
    );
    // a plain integer too large for the backing width has no unit to
    // rescue it, so it is rejected
    assert!("18446744073709551616".parse::<ByteScale>().is_err());
    assert_eq!(
        "18446744073709551615".parse::<ByteScale>().unwrap(),
        ByteScale::b(u64::MAX)
    );
}

#[test]
fn test_error_messages() {
    match ByteScale::parse("a124GB") {
        Err(e) => assert_eq!(e.0, "couldn't parse \"a124GB\" into a byte size"),
        Ok(_) => panic!("expected an error"),
    }
    match ByteScale::parse("5 XB") {
        Err(e) => assert_eq!(e.0, "couldn't parse \"XB\" into a known SI unit"),
        Ok(_) => panic!("expected an error"),
    }
    match "zz".parse::<Unit>() {
        Err(e) => assert_eq!(e, "couldn't parse unit of \"zz\""),
        Ok(_) => panic!("expected an error"),
    }
}

#[test]
fn test_formatter_edges() {
    assert_eq!("0 B", to_string(0, Format::IEC));
    assert_eq!("1023 B", to_string(1023, Format::IEC));
    assert_eq!("1.0 KiB", to_string(1024, Format::IEC));
    assert_eq!("999 B", to_string(999, Format::SI));
    assert_eq!("1.0 kB", to_string(1000, Format::SI));
    assert_eq!("16384.0 PiB", to_string(u64::MAX, Format::IEC));
    assert_eq!("18446.7 PB", to_string(u64::MAX, Format::SI));
}

#[test]
fn test_formatter_ties_to_even() {
    // 1280 / 1024 and 1250 / 1000 are exactly 1.25: the tenths round to
    // the even neighbour
    assert_eq!("1.2 KiB", to_string(1280, Format::IEC));
    assert_eq!("1.2 kB", to_string(1250, Format::SI));
    assert_eq!("1.4 kB", to_string(1350, Format::SI));
}

#[test]
fn test_saturating_arithmetic() {
    assert_eq!(ByteScale::b(u64::MAX) + ByteScale::b(1), ByteScale::b(u64::MAX));
    assert_eq!(ByteScale::b(0) - ByteScale::b(1), ByteScale::b(0));
    assert_eq!(ByteScale::b(u64::MAX) * 2u64, ByteScale::b(u64::MAX));
    assert_eq!(ByteScale::kb(u64::MAX), ByteScale::b(u64::MAX));
    let mut x = ByteScale::b(u64::MAX);
    x += ByteScale::b(5);
    assert_eq!(x, ByteScale::b(u64::MAX));
    let mut y = ByteScale::b(3);
    y -= ByteScale::b(7);
    assert_eq!(y, ByteScale::b(0));
}

#[test]
fn test_accessors() {
    assert_eq!(ByteScale::b(7).as_u64(), 7);
    assert_eq!(ByteScale::b(7).as_u32(), Some(7u32));
    assert_eq!(ByteScale::b(u64::MAX).as_u32(), None);
    assert_eq!(ByteScale::b(7).as_usize(), Some(7usize));
    assert_eq!(u64::from(Unit::KibiByte), KIB);
    assert_eq!(u64::from(Unit::TeraByte), TB);
    assert_eq!(ByteScale::from(99u64), ByteScale::b(99));
}

#[test]
fn test_unit_from_str() {
    assert_eq!(u64::from("kib".parse::<Unit>().unwrap()), KIB);
    assert_eq!(u64::from("MIB".parse::<Unit>().unwrap()), MIB);
    assert_eq!(u64::from("Gi".parse::<Unit>().unwrap()), GIB);
    assert_eq!(u64::from("pB".parse::<Unit>().unwrap()), PB);
    assert_eq!(u64::from("b".parse::<Unit>().unwrap()), 1);
    assert!("".parse::<Unit>().is_err());
    assert!("kibi".parse::<Unit>().is_err());
}

#[test]
fn test_range() {
    let r = ByteScale::range(ByteScale::kb(1), ByteScale::mb(1));
    assert_eq!(r.start_bound(), ByteScale::kb(1));
    assert_eq!(r.end_bound(), ByteScale::mb(1));
    assert!(r.contains(&ByteScale::kb(1)));
    assert!(r.contains(&ByteScale::kb(500)));
    assert!(r.contains(&ByteScale::mb(1)));
    assert!(!r.contains(&ByteScale::b(999)));
    assert!(!r.contains(&ByteScale::mb(2)));

    let from = ByteScale::range_start(ByteScale::gib(1));
    assert!(from.contains(&ByteScale::b(u64::MAX)));
    assert!(!from.contains(&ByteScale::b(0)));
    assert_eq!(from.end_bound(), ByteScale::b(u64::MAX));

    let upto = ByteScale::range_stop(ByteScale::b(GIB));
    assert!(upto.contains(&ByteScale::b(0)));
    assert!(!upto.contains(&ByteScale::b(GIB + 1)));

    let all = HumanByteRange::new(None, None);
    assert_eq!(all.start_bound(), ByteScale::b(0));
    assert_eq!(all.end_bound(), ByteScale::b(u64::MAX));
    assert_eq!(u64::from(Unit::PebiByte), PIB);
}

#[test]
fn test_take_skip_while() {
    assert_eq!("123", take_while("123abc", |c| c.is_ascii_digit()));
    assert_eq!("", take_while("abc", |c| c.is_ascii_digit()));
    assert_eq!("", take_while("", |c| c.is_ascii_digit()));
    assert_eq!("abc", skip_while("   abc", |c| c.is_whitespace()));
    assert_eq!("", skip_while("   ", |c| c.is_whitespace()));
    assert_eq!("abc", skip_while("abc", |c| c.is_whitespace()));
}

#[test]
fn test_pad_str() {
    assert_eq!("***ab", pad_str("ab", 5, '*', Alignment::Right));
    assert_eq!("ab***", pad_str("ab", 5, '*', Alignment::Left));
    assert_eq!("*ab**", pad_str("ab", 5, '*', Alignment::Center));
    assert_eq!("abcdef", pad_str("abcdef", 5, '*', Alignment::Right));
    assert_eq!("", pad_str("", 0, '*', Alignment::Left));
}
