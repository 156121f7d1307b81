use num_format::{Buffer, CustomFormat, Grouping, Locale};

fn standard_comma() -> CustomFormat {
    CustomFormat::builder()
        .grouping(Grouping::Standard)
        .minus_sign("-")
        .separator(",")
        .build()
        .unwrap()
}

fn indian_comma() -> CustomFormat {
    CustomFormat::builder()
        .grouping(Grouping::Indian)
        .minus_sign("-")
        .separator(",")
        .build()
        .unwrap()
}

fn posix() -> CustomFormat {
    CustomFormat::builder()
        .grouping(Grouping::Posix)
        .minus_sign("-")
        .separator("")
        .build()
        .unwrap()
}

#[test]
fn standard_grouping_of_18446744073() {
    let mut buf = Buffer::new();
    buf.write_formatted(&18446744073u64, &standard_comma());
    assert_eq!(buf.as_str(), "18,446,744,073");
}

#[test]
fn indian_grouping_of_18446744073() {
    let mut buf = Buffer::new();
    buf.write_formatted(&18446744073u64, &indian_comma());
    assert_eq!(buf.as_str(), "18,44,67,44,073");
}

#[test]
fn most_negative_values_format_exactly() {
    let mut buf = Buffer::new();
    buf.write_formatted(&i8::MIN, &posix());
    assert_eq!(buf.as_str(), "-128");
    buf.write_formatted(&i128::MIN, &posix());
    assert_eq!(buf.as_str(), "-170141183460469231731687303715884105728");
    buf.write_formatted(&i64::MIN, &posix());
    assert_eq!(buf.as_str(), "-9223372036854775808");
    buf.write_formatted(&i128::MIN, &standard_comma());
    assert_eq!(buf.as_str(), "-170,141,183,460,469,231,731,687,303,715,884,105,728");
}

#[test]
fn zero_and_small_values() {
    let mut buf = Buffer::new();
    buf.write_formatted(&0u8, &standard_comma());
    assert_eq!(buf.as_str(), "0");
    buf.write_formatted(&999u16, &standard_comma());
    assert_eq!(buf.as_str(), "999");
    buf.write_formatted(&1000u16, &standard_comma());
    assert_eq!(buf.as_str(), "1,000");
    buf.write_formatted(&-1i8, &standard_comma());
    assert_eq!(buf.as_str(), "-1");
}

#[test]
fn extreme_unsigned_values() {
    let mut buf = Buffer::new();
    buf.write_formatted(&u64::MAX, &posix());
    assert_eq!(buf.as_str(), "18446744073709551615");
    buf.write_formatted(&u128::MAX, &posix());
    assert_eq!(buf.as_str(), "340282366920938463463374607431768211455");
    buf.write_formatted(&u128::MAX, &indian_comma());
    assert_eq!(buf.as_str(), "34,02,82,36,69,20,93,84,63,46,33,74,60,74,31,76,82,11,455");
}

#[test]
fn multibyte_separator_groups_bytes_whole() {
    let fmt = CustomFormat::builder()
        .grouping(Grouping::Standard)
        .minus_sign("-")
        .separator("𠜱")
        .build()
        .unwrap();
    let mut buf = Buffer::new();
    buf.write_formatted(&1234567u32, &fmt);
    assert_eq!(buf.as_str(), "1𠜱234𠜱567");
}

#[test]
fn ungrouped_formatting_parses_back_for_every_width() {
    let p = posix();
    let mut buf = Buffer::new();

    for v in [0u8, 1, 9, 10, 99, 100, u8::MAX] {
        buf.write_formatted(&v, &p);
        assert_eq!(buf.as_str().parse::<u8>().unwrap(), v);
    }
    for v in [i8::MIN, -100, -1, 0, 1, i8::MAX] {
        buf.write_formatted(&v, &p);
        assert_eq!(buf.as_str().parse::<i8>().unwrap(), v);
    }
    for v in [0u16, 9999, u16::MAX] {
        buf.write_formatted(&v, &p);
        assert_eq!(buf.as_str().parse::<u16>().unwrap(), v);
    }
    for v in [i16::MIN, -1, 0, i16::MAX] {
        buf.write_formatted(&v, &p);
        assert_eq!(buf.as_str().parse::<i16>().unwrap(), v);
    }
    for v in [0u32, 1000000, u32::MAX] {
        buf.write_formatted(&v, &p);
        assert_eq!(buf.as_str().parse::<u32>().unwrap(), v);
    }
    for v in [i32::MIN, -1, 0, i32::MAX] {
        buf.write_formatted(&v, &p);
        assert_eq!(buf.as_str().parse::<i32>().unwrap(), v);
    }
    for v in [0u64, 12345678901234567890, u64::MAX] {
        buf.write_formatted(&v, &p);
        assert_eq!(buf.as_str().parse::<u64>().unwrap(), v);
    }
    for v in [i64::MIN, -1, 0, i64::MAX] {
        buf.write_formatted(&v, &p);
        assert_eq!(buf.as_str().parse::<i64>().unwrap(), v);
    }
    for v in [0u128, 10000000000000000000000000000000000000, u128::MAX] {
        buf.write_formatted(&v, &p);
        assert_eq!(buf.as_str().parse::<u128>().unwrap(), v);
    }
    for v in [i128::MIN, -1, 0, i128::MAX] {
        buf.write_formatted(&v, &p);
        assert_eq!(buf.as_str().parse::<i128>().unwrap(), v);
    }
    for v in [0usize, usize::MAX] {
        buf.write_formatted(&v, &p);
        assert_eq!(buf.as_str().parse::<usize>().unwrap(), v);
    }
    for v in [isize::MIN, 0, isize::MAX] {
        buf.write_formatted(&v, &p);
        assert_eq!(buf.as_str().parse::<isize>().unwrap(), v);
    }
}

#[test]
fn repeated_formatting_is_byte_identical() {
    let fmt = standard_comma();
    let mut buf1 = Buffer::new();
    let mut buf2 = Buffer::new();
    buf1.write_formatted(&987654321u64, &fmt);
    buf2.write_formatted(&987654321u64, &fmt);
    assert_eq!(buf1.as_bytes(), buf2.as_bytes());
    // reformat into the same buffer after reuse
    buf1.write_formatted(&5u8, &fmt);
    buf1.write_formatted(&987654321u64, &fmt);
    assert_eq!(buf1.as_bytes(), buf2.as_bytes());
}

#[test]
fn itoa_format_writes_plain_digits() {
    let mut buf = Buffer::new();
    let len = num_format::itoa::format(-12345i64, &mut buf);
    assert_eq!(len, 6);
    assert_eq!(buf.as_str(), "-12345");
}

#[test]
fn locale_styles() {
    let mut buf = Buffer::new();
    buf.write_formatted(&1234567u32, &Locale::en);
    assert_eq!(buf.as_str(), "1,234,567");
    buf.write_formatted(&1234567u32, &Locale::en_US_POSIX);
    assert_eq!(buf.as_str(), "1234567");
}
