use numhex::convert_string;
use numhex::datatype::DataType;
use numhex::decimal::parse_decimal;
use numhex::format::Format;
use numhex::ConvertError;

fn round_trip_hex(text: &str, datatype: DataType) -> String {
    let hex = convert_string(text, datatype, Format::Text, Format::Hex).unwrap();
    convert_string(&hex, datatype, Format::Hex, Format::Text).unwrap()
}

const NUMBERS: &str = r#"1.23
        1.234567890123456789012345678901
        -5"#;

#[test]
fn text_to_hex_f32() {
    assert_eq!(
        round_trip_hex(NUMBERS, DataType::Float32),
        "1.2300000190734863\n1.2345678806304932\n-5\n"
    );
}

#[test]
fn text_to_hex_f64() {
    assert_eq!(
        round_trip_hex(NUMBERS, DataType::Float64),
        "1.23\n1.2345678901234567\n-5\n"
    );
}

#[test]
fn empty_input_every_combination() {
    let datatypes = [
        DataType::Float32,
        DataType::Float64,
        DataType::Fixed(true, 4, 2),
    ];
    let formats = [Format::Text, Format::Hex];
    for t in datatypes {
        for from in formats {
            for to in formats {
                assert_eq!(convert_string("", t, from, to), Ok(String::new()));
            }
        }
    }
}

#[test]
fn partial_hex_unit_fails() {
    // half a Float32 unit: four of eight hex characters
    assert_eq!(
        convert_string("1a2b", DataType::Float32, Format::Hex, Format::Text),
        Err(ConvertError::PartialUnit)
    );
    assert_eq!(
        convert_string("1a2b", DataType::Float32, Format::Hex, Format::Hex),
        Err(ConvertError::PartialUnit)
    );
    // one whole unit and a trailing fragment
    assert_eq!(
        convert_string("a4709d3f00", DataType::Float32, Format::Hex, Format::Hex),
        Err(ConvertError::PartialUnit)
    );
    // half a Float64 unit
    assert_eq!(
        convert_string("a4709d3f", DataType::Float64, Format::Hex, Format::Text),
        Err(ConvertError::PartialUnit)
    );
}

#[test]
fn example_two_values_f32() {
    let hex = convert_string("1.23\n-5\n", DataType::Float32, Format::Text, Format::Hex).unwrap();
    assert_eq!(hex.len(), 16);
    assert_eq!(hex, "a4709d3f0000a0c0");
    assert!(hex.chars().all(|c| c.is_ascii_digit() || ('a'..='f').contains(&c)));
    let back = convert_string(&hex, DataType::Float32, Format::Hex, Format::Text).unwrap();
    assert_eq!(back, "1.2300000190734863\n-5\n");
}

#[test]
fn hex_to_hex_keeps_finite_units() {
    assert_eq!(
        convert_string("a4709d3f0000a0c0", DataType::Float32, Format::Hex, Format::Hex),
        Ok(String::from("a4709d3f0000a0c0"))
    );
    // uppercase digits are read, lowercase ones are written
    assert_eq!(
        convert_string("A4709D3F", DataType::Float32, Format::Hex, Format::Hex),
        Ok(String::from("a4709d3f"))
    );
    assert_eq!(
        convert_string("ae47e17a14aef33f", DataType::Float64, Format::Hex, Format::Hex),
        Ok(String::from("ae47e17a14aef33f"))
    );
}

#[test]
fn hex_stream_ends_at_non_finite_unit() {
    // a NaN unit ends the stream: no output, success
    assert_eq!(
        convert_string("0000c07f", DataType::Float32, Format::Hex, Format::Text),
        Ok(String::new())
    );
    // an infinity too, and the units after it are not read
    assert_eq!(
        convert_string("0000807f0000a0c0", DataType::Float32, Format::Hex, Format::Hex),
        Ok(String::new())
    );
}

#[test]
fn malformed_hex_is_fatal() {
    assert_eq!(
        convert_string("zzzzzzzz", DataType::Float32, Format::Hex, Format::Text),
        Err(ConvertError::MalformedHex)
    );
    assert_eq!(
        convert_string("a4709d3g", DataType::Float32, Format::Hex, Format::Hex),
        Err(ConvertError::MalformedHex)
    );
}

#[test]
fn malformed_number_is_fatal() {
    let bad = ["abc\n", "+5\n", "1.2.3\n", "1.-5\n", "\n", "5.\n", ".5\n", "1e3\n", "--5\n"];
    for text in bad {
        assert_eq!(
            convert_string(text, DataType::Float32, Format::Text, Format::Hex),
            Err(ConvertError::MalformedNumber),
            "input {:?}",
            text
        );
    }
}

#[test]
fn text_to_text_renders_double_approximation() {
    assert_eq!(
        convert_string("1.5\n", DataType::Float32, Format::Text, Format::Text),
        Ok(String::from("1.5\n"))
    );
    // leading zeros and trailing fractional zeros are not kept
    assert_eq!(
        convert_string(" 0012.500 \n", DataType::Float32, Format::Text, Format::Text),
        Ok(String::from("12.5\n"))
    );
    // the fractional part is added to the signed integer part
    assert_eq!(
        convert_string("-1.5\n", DataType::Float32, Format::Text, Format::Text),
        Ok(String::from("-0.5\n"))
    );
    // a final line without a newline is still one unit
    assert_eq!(
        convert_string("5", DataType::Float32, Format::Text, Format::Text),
        Ok(String::from("5\n"))
    );
}

#[test]
fn fixed_point_is_rejected_where_bytes_are_needed() {
    let t = DataType::Fixed(true, 4, 2);
    assert_eq!(
        convert_string("1.5\n", t, Format::Text, Format::Hex),
        Err(ConvertError::Unsupported)
    );
    assert_eq!(
        convert_string("00", t, Format::Hex, Format::Text),
        Err(ConvertError::Unsupported)
    );
    assert_eq!(
        convert_string("00", t, Format::Hex, Format::Hex),
        Err(ConvertError::Unsupported)
    );
    // text to text never needs the codec, so fixed point passes through
    assert_eq!(
        convert_string("1.5\n", t, Format::Text, Format::Text),
        Ok(String::from("1.5\n"))
    );
}

#[test]
fn text_hex_text_is_a_fixed_point() {
    // one more round trip through hex reproduces the rendering exactly
    let once = round_trip_hex(NUMBERS, DataType::Float32);
    let twice = round_trip_hex(&once, DataType::Float32);
    assert_eq!(once, twice);
    let once64 = round_trip_hex(NUMBERS, DataType::Float64);
    let twice64 = round_trip_hex(&once64, DataType::Float64);
    assert_eq!(once64, twice64);
}

#[test]
fn already_exact_values_round_trip_bitwise() {
    // values already exact at the chosen width come back bit for bit
    for hex in ["0000c03f", "0000a0c0", "00000000", "c3f54840"] {
        assert_eq!(
            convert_string(hex, DataType::Float32, Format::Hex, Format::Hex),
            Ok(String::from(hex))
        );
        let text = convert_string(hex, DataType::Float32, Format::Hex, Format::Text).unwrap();
        assert_eq!(
            convert_string(&text, DataType::Float32, Format::Text, Format::Hex),
            Ok(String::from(hex))
        );
    }
}

#[test]
fn parse_decimal_keeps_digits() {
    let d = parse_decimal(" 1.23 ").unwrap();
    assert!(!d.neg);
    assert_eq!(d.int_part, "1");
    assert_eq!(d.frac_part, "23");
    let d = parse_decimal("-00.5").unwrap();
    assert!(d.neg);
    assert_eq!(d.int_part, "00");
    assert_eq!(d.frac_part, "5");
    let d = parse_decimal("42").unwrap();
    assert_eq!(d.int_part, "42");
    assert_eq!(d.frac_part, "");
    assert!(parse_decimal("4x2").is_none());
    assert!(parse_decimal("").is_none());
}
