use mdb_api::dcmd::{Arg, Code, Flags, FLAG_MASK};
use mdb_api::sys::{DCMD_ABORT, DCMD_ERR, DCMD_NEXT, DCMD_OK, DCMD_USAGE};

fn s(text: &str) -> Arg {
    Arg::String(String::from(text))
}

#[test]
fn code_to_int_values() {
    assert_eq!(Code::Success.to_int(), DCMD_OK);
    assert_eq!(Code::Failure.to_int(), DCMD_ERR);
    assert_eq!(Code::Usage.to_int(), DCMD_USAGE);
    assert_eq!(Code::Next.to_int(), DCMD_NEXT);
    assert_eq!(Code::Abort.to_int(), DCMD_ABORT);
    assert_eq!(
        vec![DCMD_OK, DCMD_ERR, DCMD_USAGE, DCMD_NEXT, DCMD_ABORT],
        vec![0, 1, 2, 3, 4]
    );
}

#[test]
fn flags_truncate_drops_unknown_bits() {
    assert_eq!(Flags::from_bits_truncate(0xffff_ffff).bits(), FLAG_MASK);
    assert_eq!(Flags::from_bits_truncate(0x21).bits(), 0x01);
    let f = Flags::from_bits_truncate(0x15);
    assert_eq!(Flags::from_bits_truncate(f.bits()).bits(), f.bits());
}

#[test]
fn flags_from_bits_rejects_unknown_bits() {
    assert!(Flags::from_bits(0x20).is_none());
    assert_eq!(Flags::from_bits(0x1f).unwrap().bits(), 0x1f);
    assert_eq!(Flags::from_bits(0).unwrap().bits(), 0);
}

#[test]
fn flags_named_and_set_operations() {
    assert_eq!(Flags::addr_spec().bits(), 0x01);
    assert_eq!(Flags::in_loop().bits(), 0x02);
    assert_eq!(Flags::loop_first().bits(), 0x04);
    assert_eq!(Flags::pipe().bits(), 0x08);
    assert_eq!(Flags::pipe_out().bits(), 0x10);
    assert_eq!(Flags::empty().bits(), 0);
    assert_eq!(Flags::all().bits(), 0x1f);
    let f = Flags::addr_spec().union(Flags::pipe());
    assert_eq!(f.bits(), 0x09);
    assert!(f.contains(Flags::pipe()));
    assert!(!f.contains(Flags::in_loop()));
    assert!(f.contains(Flags::empty()));
}

#[test]
fn arg_displays_as_text_or_decimal() {
    assert_eq!(Arg::U64(42).to_string(), "42");
    assert_eq!(Arg::U64(0).to_string(), "0");
    assert_eq!(Arg::U64(u64::MAX).to_string(), "18446744073709551615");
    assert_eq!(s("hello").to_string(), "hello");
}

#[test]
fn string_conversion() {
    assert_eq!(String::try_from(s("abc")), Ok(String::from("abc")));
    assert_eq!(String::try_from(Arg::U64(1)), Err(()));
    assert_eq!(String::try_from(&s("abc")), Ok(String::from("abc")));
    assert_eq!(String::try_from(&Arg::U64(1)), Err(()));
}

#[test]
fn unsigned_conversions() {
    assert_eq!(u8::try_from(Arg::U64(255)), Ok(255));
    assert_eq!(u8::try_from(Arg::U64(256)), Err(()));
    assert_eq!(u8::try_from(s("+7")), Ok(7));
    assert_eq!(u8::try_from(s("-1")), Err(()));
    assert_eq!(u8::try_from(s("-0")), Err(()));
    assert_eq!(u16::try_from(s("65535")), Ok(65535));
    assert_eq!(u16::try_from(s("65536")), Err(()));
    assert_eq!(u32::try_from(&Arg::U64(4294967296)), Err(()));
    assert_eq!(u64::try_from(s("18446744073709551615")), Ok(u64::MAX));
    assert_eq!(u64::try_from(s("18446744073709551616")), Err(()));
    assert_eq!(u64::try_from(s("99999999999999999999999")), Err(()));
    assert_eq!(u64::try_from(s("00012")), Ok(12));
    assert_eq!(u64::try_from(s("")), Err(()));
    assert_eq!(u64::try_from(s("+")), Err(()));
    assert_eq!(u64::try_from(s("12a")), Err(()));
    assert_eq!(u64::try_from(s(" 12")), Err(()));
    assert_eq!(u64::try_from(s("0x10")), Err(()));
}

#[test]
fn signed_conversions() {
    assert_eq!(i8::try_from(s("-128")), Ok(-128));
    assert_eq!(i8::try_from(s("-129")), Err(()));
    assert_eq!(i8::try_from(s("127")), Ok(127));
    assert_eq!(i8::try_from(s("128")), Err(()));
    assert_eq!(i8::try_from(s("-0")), Ok(0));
    assert_eq!(i8::try_from(s("-")), Err(()));
    assert_eq!(i8::try_from(s("+-1")), Err(()));
    assert_eq!(i16::try_from(&s("-32768")), Ok(-32768));
    assert_eq!(i32::try_from(Arg::U64(2147483648)), Err(()));
    assert_eq!(i32::try_from(Arg::U64(2147483647)), Ok(2147483647));
    assert_eq!(i64::try_from(s("-9223372036854775808")), Ok(i64::MIN));
    assert_eq!(i64::try_from(s("9223372036854775808")), Err(()));
    assert_eq!(i64::try_from(Arg::U64(u64::MAX)), Err(()));
}

#[test]
fn conversions_agree_with_std_parsing() {
    for text in ["0", "+5", "-5", "255", "256", "-128", "abc", "", "+", "-", "007", "-00"] {
        assert_eq!(u8::try_from(s(text)).ok(), text.parse::<u8>().ok(), "{text}");
        assert_eq!(i8::try_from(s(text)).ok(), text.parse::<i8>().ok(), "{text}");
        assert_eq!(u64::try_from(s(text)).ok(), text.parse::<u64>().ok(), "{text}");
        assert_eq!(i64::try_from(s(text)).ok(), text.parse::<i64>().ok(), "{text}");
    }
}

#[test]
fn displayed_immediate_reads_back() {
    for x in [0u64, 7, 10, 99, 100, 12345, u64::MAX] {
        let text = Arg::U64(x).to_string();
        assert_eq!(u64::try_from(Arg::String(text.clone())), Ok(x));
        assert_eq!(u64::try_from(Arg::U64(x)), Ok(x));
    }
}

#[test]
fn by_reference_matches_by_value() {
    for a in [s("12"), s("-3"), s("x"), Arg::U64(300), Arg::U64(5)] {
        assert_eq!(u8::try_from(&a), u8::try_from(a.clone()));
        assert_eq!(i16::try_from(&a), i16::try_from(a.clone()));
        assert_eq!(String::try_from(&a), String::try_from(a.clone()));
    }
}

#[test]
fn flags_set_algebra() {
    let a = Flags::addr_spec().union(Flags::pipe());
    let b = Flags::pipe().union(Flags::pipe_out());
    assert!(!a.is_empty());
    assert!(Flags::empty().is_empty());
    assert!(Flags::all().is_all());
    assert!(!a.is_all());
    assert!(a.intersects(b));
    assert!(!a.intersects(Flags::in_loop()));
    assert_eq!(a.intersection(b).bits(), 0x08);
    assert_eq!(a.difference(b).bits(), 0x01);
    assert_eq!(a.symmetric_difference(b).bits(), 0x11);
    assert_eq!(a.complement().bits(), 0x16);
    let mut f = Flags::empty();
    f.insert(Flags::in_loop());
    assert_eq!(f.bits(), 0x02);
    f.insert(Flags::pipe());
    f.remove(Flags::in_loop());
    assert_eq!(f.bits(), 0x08);
    f.toggle(Flags::pipe().union(Flags::loop_first()));
    assert_eq!(f.bits(), 0x04);
    f.set(Flags::addr_spec(), true);
    assert_eq!(f.bits(), 0x05);
    f.set(Flags::loop_first(), false);
    assert_eq!(f.bits(), 0x01);
}
