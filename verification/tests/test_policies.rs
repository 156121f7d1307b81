use num_format::ryu::float::{FloatBits32, FloatBits64};
use num_format::system_locale::Request;
use num_format::{Buffer, CustomFormat, ErrorKind, Grouping, SystemLocale};

#[test]
fn zero_of_either_sign_formats_plain_under_every_grouping() {
    let mut buf = Buffer::new();
    for g in [Grouping::Standard, Grouping::Indian, Grouping::Posix] {
        let fmt = CustomFormat::builder()
            .grouping(g)
            .minus_sign("−")
            .separator(",")
            .build()
            .unwrap();
        buf.write_formatted(&FloatBits64 { bits: 0f64.to_bits() }, &fmt);
        assert_eq!(buf.as_str(), "0.0");
        buf.write_formatted(&FloatBits64 { bits: (-0f64).to_bits() }, &fmt);
        assert_eq!(buf.as_str(), "0.0");
        buf.write_formatted(&FloatBits32 { bits: 0f32.to_bits() }, &fmt);
        assert_eq!(buf.as_str(), "0.0");
        buf.write_formatted(&FloatBits32 { bits: (-0f32).to_bits() }, &fmt);
        assert_eq!(buf.as_str(), "0.0");
    }
}

#[test]
fn nonfinite_values_use_the_policy_strings() {
    let mut buf = Buffer::new();
    for (g, sep) in [
        (Grouping::Standard, ","),
        (Grouping::Indian, "𠜱"),
        (Grouping::Posix, ""),
    ] {
        let fmt = CustomFormat::builder()
            .grouping(g)
            .separator(sep)
            .infinity("INFINITY")
            .nan("NOT_A_NUMBER")
            .minus_sign("~")
            .build()
            .unwrap();
        buf.write_formatted(&FloatBits64 { bits: f64::INFINITY.to_bits() }, &fmt);
        assert_eq!(buf.as_str(), "INFINITY");
        buf.write_formatted(&FloatBits64 { bits: f64::NEG_INFINITY.to_bits() }, &fmt);
        assert_eq!(buf.as_str(), "~INFINITY");
        buf.write_formatted(&FloatBits64 { bits: f64::NAN.to_bits() }, &fmt);
        assert_eq!(buf.as_str(), "NOT_A_NUMBER");
        buf.write_formatted(&FloatBits32 { bits: f32::NEG_INFINITY.to_bits() }, &fmt);
        assert_eq!(buf.as_str(), "~INFINITY");
        buf.write_formatted(&FloatBits32 { bits: f32::NAN.to_bits() }, &fmt);
        assert_eq!(buf.as_str(), "NOT_A_NUMBER");
    }
}

#[test]
fn custom_minus_sign_is_used_for_integers_and_floats() {
    let fmt = CustomFormat::builder()
        .grouping(Grouping::Standard)
        .minus_sign("−")
        .separator(",")
        .build()
        .unwrap();
    let mut buf = Buffer::new();
    buf.write_formatted(&-1234567i64, &fmt);
    assert_eq!(buf.as_str(), "−1,234,567");
    buf.write_formatted(&FloatBits64 { bits: (-1234.5f64).to_bits() }, &fmt);
    assert_eq!(buf.as_str(), "−1,234.5");
}

#[test]
fn end_to_end_examples() {
    let fmt = CustomFormat::builder()
        .grouping(Grouping::Standard)
        .minus_sign("-")
        .separator(",")
        .build()
        .unwrap();
    let mut buf = Buffer::new();
    buf.write_formatted(&FloatBits64 { bits: 18446744073.709f64.to_bits() }, &fmt);
    assert_eq!(buf.as_str(), "18,446,744,073.709");
    buf.write_formatted(&(-128i8), &fmt);
    assert_eq!(buf.as_str(), "-128");
    buf.write_formatted(&0u8, &fmt);
    assert_eq!(buf.as_str(), "0");
}

#[test]
fn over_long_policy_strings_are_rejected_at_construction() {
    let e = CustomFormat::builder()
        .separator("123456789")
        .build()
        .unwrap_err();
    assert_eq!(e.kind(), ErrorKind::SeparatorTooLong);

    let e = CustomFormat::builder()
        .minus_sign("123456789")
        .build()
        .unwrap_err();
    assert_eq!(e.kind(), ErrorKind::MinusSignTooLong);

    let e = CustomFormat::builder()
        .decimal("123456789")
        .build()
        .unwrap_err();
    assert_eq!(e.kind(), ErrorKind::DecimalTooLong);

    let long = "x".repeat(129);
    let e = CustomFormat::builder().infinity(&long).build().unwrap_err();
    assert_eq!(e.kind(), ErrorKind::InfinityTooLong);

    let long = "x".repeat(65);
    let e = CustomFormat::builder().nan(&long).build().unwrap_err();
    assert_eq!(e.kind(), ErrorKind::NanTooLong);

    let e = CustomFormat::builder()
        .plus_sign("123456789")
        .build()
        .unwrap_err();
    assert_eq!(e.kind(), ErrorKind::PlusSignTooLong);
}

#[test]
fn system_locale_from_parts_validates_each_property() {
    let l = SystemLocale::from_parts(
        String::from("en-US"),
        String::from("."),
        String::from("3;0"),
        String::from("∞"),
        String::from("-"),
        String::from("NaN"),
        String::from(","),
    )
    .unwrap();
    assert_eq!(l.name(), "en-US");
    let mut buf = Buffer::new();
    buf.write_formatted(&1234567u32, &l);
    assert_eq!(buf.as_str(), "1,234,567");

    let indian = SystemLocale::from_parts(
        String::from("hi-IN"),
        String::from("."),
        String::from("3;2;0"),
        String::from("∞"),
        String::from("-"),
        String::from("NaN"),
        String::from(","),
    )
    .unwrap();
    buf.write_formatted(&1234567u32, &indian);
    assert_eq!(buf.as_str(), "12,34,567");

    let e = SystemLocale::from_parts(
        String::from("x"),
        String::from(".."),
        String::from("3;0"),
        String::from("∞"),
        String::from("-"),
        String::from("NaN"),
        String::from(","),
    )
    .unwrap_err();
    assert_eq!(e.kind(), ErrorKind::UnsupportedDecimal);

    let e = SystemLocale::from_parts(
        String::from("x"),
        String::from("."),
        String::from("4;0"),
        String::from("∞"),
        String::from("-"),
        String::from("NaN"),
        String::from(","),
    )
    .unwrap_err();
    assert_eq!(e.kind(), ErrorKind::UnsupportedGrouping);

    let e = SystemLocale::from_parts(
        String::from("x"),
        String::from("."),
        String::from("3;0"),
        String::from("∞"),
        String::from("-"),
        String::from("NaN"),
        String::from(",,"),
    )
    .unwrap_err();
    assert_eq!(e.kind(), ErrorKind::UnsupportedSeparator);

    let e = SystemLocale::from_parts(
        String::from("y").repeat(85),
        String::from("."),
        String::from("3;0"),
        String::from("∞"),
        String::from("-"),
        String::from("NaN"),
        String::from(","),
    )
    .unwrap_err();
    assert_eq!(e.kind(), ErrorKind::LocaleNameTooLong);
}

#[test]
fn locale_requests_name_platform_constants() {
    assert_eq!(u32::from(Request::Decimal), 0x0E);
    assert_eq!(u32::from(Request::Grouping), 0x10);
    assert_eq!(u32::from(Request::MinusSign), 0x51);
    assert_eq!(u32::from(Request::Name), 0x5C);
    assert_eq!(u32::from(Request::Nan), 0x69);
    assert_eq!(u32::from(Request::NegativeInfinity), 0x6B);
    assert_eq!(u32::from(Request::PositiveInfinity), 0x6A);
    assert_eq!(u32::from(Request::Separator), 0x0F);
}

#[test]
fn default_policy_is_standard_comma() {
    let fmt = CustomFormat::default();
    let mut buf = Buffer::new();
    buf.write_formatted(&1234567u32, &fmt);
    assert_eq!(buf.as_str(), "1,234,567");
    buf.write_formatted(&FloatBits64 { bits: f64::NAN.to_bits() }, &fmt);
    assert_eq!(buf.as_str(), "NaN");
    buf.write_formatted(&FloatBits64 { bits: f64::NEG_INFINITY.to_bits() }, &fmt);
    assert_eq!(buf.as_str(), "-inf");
}

#[test]
fn grouped_float_with_empty_separator_falls_back_to_plain() {
    let fmt = CustomFormat::builder()
        .grouping(Grouping::Standard)
        .minus_sign("-")
        .separator("")
        .build()
        .unwrap();
    let mut buf = Buffer::new();
    buf.write_formatted(&FloatBits64 { bits: 12345678.5f64.to_bits() }, &fmt);
    assert_eq!(buf.as_str(), "12345678.5");
    buf.write_formatted(&98765432u32, &fmt);
    assert_eq!(buf.as_str(), "98765432");
}
