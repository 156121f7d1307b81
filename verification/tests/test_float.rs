use num_format::ryu::float::FloatBits64;
use num_format::{Buffer, CustomFormat, Grouping, Locale};

fn policies() -> Vec<CustomFormat> {
    vec![
        CustomFormat::builder()
            .grouping(Grouping::Standard)
            .minus_sign("-")
            .separator(",")
            .build()
            .unwrap(),
        CustomFormat::builder()
            .grouping(Grouping::Standard)
            .minus_sign("-")
            .separator("𠜱")
            .build()
            .unwrap(),
        CustomFormat::builder()
            .grouping(Grouping::Indian)
            .minus_sign("-")
            .separator("𠜱")
            .build()
            .unwrap(),
        CustomFormat::builder()
            .grouping(Grouping::Standard)
            .minus_sign("-")
            .separator("")
            .build()
            .unwrap(),
        CustomFormat::builder()
            .grouping(Grouping::Posix)
            .minus_sign("-")
            .separator("")
            .build()
            .unwrap(),
    ]
}

#[test]
fn test_f64() {
    let f = 1.234_f64;

    let mut buffer = Buffer::new();
    let pos = num_format::ryu::raw::format64(
        FloatBits64 { bits: f.to_bits() },
        &mut buffer,
        24,
        &Locale::en,
    );

    let printed = std::str::from_utf8(&buffer.inner[pos..24]).unwrap();
    assert_eq!(printed, "1.234");
    println!("aaa");

    let all = policies();
    let test_cases: &[(&str, f64, &CustomFormat)] = &[
        ("0.0", 0f64, &all[0]),
        ("0.0", 0f64, &all[1]),
        ("0.0", 0f64, &all[2]),
        ("0.0", 0f64, &all[3]),
        ("0.0", 0f64, &all[4]),
        ("18,446,744,073.709", 18446744073.709_f64, &all[0]),
        ("18𠜱446𠜱744𠜱073.709", 18446744073.709_f64, &all[1]),
        ("18𠜱44𠜱67𠜱44𠜱073.709", 18446744073.709_f64, &all[2]),
        ("18446744073.709", 18446744073.709_f64, &all[3]),
        ("18446744073.709", 18446744073.709_f64, &all[4]),
    ];

    for (expected, input, format) in test_cases {
        // Buffer
        let mut buf = Buffer::default();
        buf.write_formatted(&FloatBits64 { bits: input.to_bits() }, *format);
        assert_eq!(*expected, buf.as_str());
    }
}
