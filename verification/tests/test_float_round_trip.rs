use num_format::ryu::float::{FloatBits32, FloatBits64};
use num_format::{Buffer, CustomFormat, Grouping};

fn posix() -> CustomFormat {
    CustomFormat::builder()
        .grouping(Grouping::Posix)
        .minus_sign("-")
        .separator("")
        .build()
        .unwrap()
}

/// The significant digits of a plain positional decimal string: sign, the
/// decimal point, leading integer-part zeros and trailing fractional zeros
/// stripped.
fn significant_digits(s: &str) -> String {
    let s = s.strip_prefix('-').unwrap_or(s);
    let digits: String = s.chars().filter(|c| c.is_ascii_digit()).collect();
    let t = digits.trim_start_matches('0');
    let t = t.trim_end_matches('0');
    if t.is_empty() {
        String::from("0")
    } else {
        String::from(t)
    }
}

/// The significant digits of a reference shortest form, which may use
/// exponent notation.
fn reference_significant_digits(s: &str) -> String {
    let mantissa = s.split(['e', 'E']).next().unwrap();
    significant_digits(mantissa)
}

#[test]
fn f64_round_trips_and_is_shortest() {
    let p = posix();
    let mut buf = Buffer::new();
    let mut reference = ryu::Buffer::new();
    let values = [
        1.0f64,
        -1.0,
        0.1,
        1.234,
        123456.789,
        18446744073.709,
        3.141592653589793,
        2.718281828459045,
        1e16,
        1e17,
        9007199254740992.0,
        4503599627370497.0,
        1e300,
        -1e300,
        5e-324,
        -5e-324,
        2.2250738585072014e-308,
        1.7976931348623157e308,
        1e-10,
        -0.000123456,
        0.3,
        0.1 + 0.2,
        1.5e-5,
        123.0,
        1e22,
        7.2057594037927933e16,
    ];
    for v in values {
        buf.write_formatted(&FloatBits64 { bits: v.to_bits() }, &p);
        let printed = buf.as_str();
        // Round trip: parsing the output reproduces the exact bit pattern.
        let back: f64 = printed.parse().unwrap();
        assert_eq!(back.to_bits(), v.to_bits(), "round trip failed for {printed}");
        // Shortest: the reference conversion uses the same number of
        // significant digits.
        let r = reference.format_finite(v);
        assert_eq!(
            significant_digits(printed),
            reference_significant_digits(r),
            "digit count differs for {printed} vs {r}"
        );
    }
}

#[test]
fn f32_round_trips_and_is_shortest() {
    let p = posix();
    let mut buf = Buffer::new();
    let mut reference = ryu::Buffer::new();
    let values = [
        1.0f32,
        -1.0,
        0.1,
        1.234,
        3.1415927,
        16777216.0,
        16777217.0,
        3.4028235e38,
        1.1754944e-38,
        1e-45,
        -1e-45,
        0.33333334,
        123456.79,
        -2.5e-7,
    ];
    for v in values {
        buf.write_formatted(&FloatBits32 { bits: v.to_bits() }, &p);
        let printed = buf.as_str();
        let back: f32 = printed.parse().unwrap();
        assert_eq!(back.to_bits(), v.to_bits(), "round trip failed for {printed}");
        let r = reference.format_finite(v);
        assert_eq!(
            significant_digits(printed),
            reference_significant_digits(r),
            "digit count differs for {printed} vs {r}"
        );
    }
}

#[test]
fn tiny_and_huge_magnitudes_stay_positional() {
    let p = posix();
    let mut buf = Buffer::new();
    buf.write_formatted(&FloatBits64 { bits: 1e-6f64.to_bits() }, &p);
    assert_eq!(buf.as_str(), "0.000001");
    buf.write_formatted(&FloatBits64 { bits: 1e-7f64.to_bits() }, &p);
    assert_eq!(buf.as_str(), "0.0000001");
    buf.write_formatted(&FloatBits64 { bits: 1e21f64.to_bits() }, &p);
    assert_eq!(buf.as_str(), "1000000000000000000000.0");
    buf.write_formatted(&FloatBits64 { bits: 1.5f64.to_bits() }, &p);
    assert_eq!(buf.as_str(), "1.5");
    buf.write_formatted(&FloatBits64 { bits: 100.0f64.to_bits() }, &p);
    assert_eq!(buf.as_str(), "100.0");
}

#[test]
fn pseudo_random_f64_bit_patterns_round_trip() {
    let p = posix();
    let mut buf = Buffer::new();
    let mut x: u64 = 0x9E3779B97F4A7C15;
    let mut checked = 0u32;
    while checked < 4000 {
        // splitmix-style scramble for a spread of bit patterns
        x = x.wrapping_add(0x9E3779B97F4A7C15);
        let mut z = x;
        z = (z ^ (z >> 30)).wrapping_mul(0xBF58476D1CE4E5B9);
        z = (z ^ (z >> 27)).wrapping_mul(0x94D049BB133111EB);
        let bits = z ^ (z >> 31);
        let exponent = (bits >> 52) & 0x7FF;
        let mantissa = bits & 0xF_FFFF_FFFF_FFFF;
        if exponent == 0x7FF {
            continue; // non-finite: no decimal text round-trips
        }
        if exponent == 0 && mantissa == 0 {
            continue; // a zero's sign is deliberately not kept
        }
        buf.write_formatted(&FloatBits64 { bits }, &p);
        let back: f64 = buf.as_str().parse().unwrap();
        assert_eq!(back.to_bits(), bits, "round trip failed for {}", buf.as_str());
        checked += 1;
    }
}

#[test]
fn pseudo_random_f32_bit_patterns_round_trip() {
    let p = posix();
    let mut buf = Buffer::new();
    let mut x: u64 = 0x243F6A8885A308D3;
    let mut checked = 0u32;
    while checked < 4000 {
        x = x.wrapping_add(0x9E3779B97F4A7C15);
        let mut z = x;
        z = (z ^ (z >> 30)).wrapping_mul(0xBF58476D1CE4E5B9);
        z = (z ^ (z >> 27)).wrapping_mul(0x94D049BB133111EB);
        let bits = (z ^ (z >> 31)) as u32;
        let exponent = (bits >> 23) & 0xFF;
        let mantissa = bits & 0x7F_FFFF;
        if exponent == 0xFF {
            continue;
        }
        if exponent == 0 && mantissa == 0 {
            continue;
        }
        buf.write_formatted(&FloatBits32 { bits }, &p);
        let back: f32 = buf.as_str().parse().unwrap();
        assert_eq!(back.to_bits(), bits, "round trip failed for {}", buf.as_str());
        checked += 1;
    }
}
