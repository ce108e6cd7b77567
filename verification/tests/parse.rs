use numhex::datatype::parse_precision;
use numhex::datatype::DataType;
use numhex::datatype::ParseTypeError;
use numhex::format::Format;
use numhex::format::ParseFormatError;

#[test]
fn parse_types() {
    assert_eq!("f32".parse(), Ok(DataType::Float32));
    assert_eq!("f64".parse(), Ok(DataType::Float64));
    assert_eq!("s4.2".parse(), Ok(DataType::Fixed(true, 4, 2)));
    assert_eq!("u2.4".parse(), Ok(DataType::Fixed(false, 2, 4)));
    assert_eq!("s42".parse(), Ok(DataType::Fixed(true, 42, 0)));
    assert_eq!("u24".parse(), Ok(DataType::Fixed(false, 24, 0)));
}

#[test]
fn parse_types_rejects() {
    assert_eq!("bogus".parse::<DataType>(), Err(ParseTypeError));
    assert_eq!("".parse::<DataType>(), Err(ParseTypeError));
    assert_eq!("f32 ".parse::<DataType>(), Err(ParseTypeError));
    assert_eq!("s".parse::<DataType>(), Err(ParseTypeError));
    assert_eq!("u".parse::<DataType>(), Err(ParseTypeError));
    assert_eq!("sx".parse::<DataType>(), Err(ParseTypeError));
    assert_eq!("s4.2.1".parse::<DataType>(), Err(ParseTypeError));
    assert_eq!("s4.".parse::<DataType>(), Err(ParseTypeError));
    assert_eq!("s.2".parse::<DataType>(), Err(ParseTypeError));
    assert_eq!("s+4".parse::<DataType>(), Err(ParseTypeError));
    // a precision field beyond usize is rejected, not wrapped
    assert_eq!("u18446744073709551616".parse::<DataType>(), Err(ParseTypeError));
}

#[test]
fn parse_precision_pairs() {
    assert_eq!(parse_precision("4.2"), Ok((4, 2)));
    assert_eq!(parse_precision("42"), Ok((42, 0)));
    assert_eq!(parse_precision("0.0"), Ok((0, 0)));
    assert_eq!(parse_precision(""), Err(ParseTypeError));
    assert_eq!(parse_precision("4.2.1"), Err(ParseTypeError));
    assert_eq!(parse_precision("."), Err(ParseTypeError));
}

#[test]
fn datatype_to_string_round() {
    assert_eq!(DataType::Float32.to_string(), "f32");
    assert_eq!(DataType::Float64.to_string(), "f64");
    // the `.F` suffix is always written, even when F is zero
    assert_eq!(DataType::Fixed(true, 4, 2).to_string(), "s4.2");
    assert_eq!(DataType::Fixed(false, 24, 0).to_string(), "u24.0");
    assert_eq!(DataType::Fixed(false, 120, 17).to_string(), "u120.17");
    // the canonical rendering parses back to the same value
    assert_eq!(DataType::Fixed(false, 24, 0).to_string().parse(), Ok(DataType::Fixed(false, 24, 0)));
}

#[test]
fn parse_formats() {
    assert_eq!("txt".parse::<Format>(), Ok(Format::Text));
    assert_eq!("hex".parse::<Format>(), Ok(Format::Hex));
    assert_eq!("xml".parse::<Format>(), Err(ParseFormatError));
    assert_eq!("".parse::<Format>(), Err(ParseFormatError));
    assert_eq!("TXT".parse::<Format>(), Err(ParseFormatError));
}
