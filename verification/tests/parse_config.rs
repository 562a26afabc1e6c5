use seqfetch::config::{Config, Parameters};
use seqfetch::parse::{parse_decimal, read_number, ParseNumberError};

#[test]
fn read_number_single() {
    assert_eq!(read_number("SRX123"), Ok((123, 123)));
}

#[test]
fn read_number_range() {
    assert_eq!(read_number("SRX100-300"), Ok((100, 300)));
}

#[test]
fn read_number_descending_range() {
    assert_eq!(read_number("SRX300-100"), Ok((100, 300)));
}

#[test]
fn read_number_extra_dash_ignored() {
    assert_eq!(read_number("SRX1-2-3"), Ok((1, 2)));
}

#[test]
fn read_number_illegal_character() {
    assert_eq!(read_number("SRX12a"), Err(ParseNumberError::IllegalCharacter));
    assert_eq!(read_number("SRX1x-3"), Err(ParseNumberError::IllegalCharacter));
}

#[test]
fn read_number_empty_body() {
    assert_eq!(read_number("SRX"), Err(ParseNumberError::IllegalCharacter));
}

#[test]
fn read_number_empty_segment() {
    // an empty segment beside a dash is an illegal character, as the
    // failed numeral read reports
    assert_eq!(read_number("SRX5-"), Err(ParseNumberError::IllegalCharacter));
    assert_eq!(read_number("SRX-5"), Err(ParseNumberError::IllegalCharacter));
}

#[test]
fn read_number_dash_only_in_prefix() {
    // the dash announces a range, but the body holds a single number
    assert_eq!(read_number("SR-12"), Err(ParseNumberError::IncompleteRange));
    // a malformed first number is reported before the missing second one
    assert_eq!(read_number("SR-1x"), Err(ParseNumberError::IllegalCharacter));
}

#[test]
fn read_number_overflowing_value() {
    // one more than the largest 64-bit value
    assert_eq!(
        read_number("SRX18446744073709551616"),
        Err(ParseNumberError::IllegalCharacter)
    );
}

#[test]
fn parse_decimal_exact_values() {
    assert_eq!(parse_decimal("907"), Ok(907));
    assert_eq!(parse_decimal("0"), Ok(0));
    assert_eq!(parse_decimal("0012"), Ok(12));
    assert_eq!(parse_decimal(""), Err(ParseNumberError::IllegalCharacter));
    assert_eq!(parse_decimal("9 7"), Err(ParseNumberError::IllegalCharacter));
}

#[test]
fn parse_error_messages() {
    assert_eq!(
        ParseNumberError::IllegalCharacter.message(),
        "Illegal character found"
    );
    assert_eq!(ParseNumberError::IncompleteRange.message(), "Incomplete range");
}

#[test]
fn default_config_values() {
    let c = Config::default();
    assert_eq!(c.retry_times, 5);
    assert_eq!(c.read_meta_timeout, 60);
    assert_eq!(c.max_concurrent_requests, 3);
    assert_eq!(c.download_timeout, 600);
}

#[test]
fn parameters_recognized_words() {
    assert_eq!(
        Parameters::try_from("srr_name_override"),
        Ok(Parameters::SRRNameOverride)
    );
    assert_eq!(
        Parameters::try_from("library_name_override"),
        Ok(Parameters::LibraryNameOverride)
    );
    assert_eq!(Parameters::try_from("preflight"), Err(()));
    assert_eq!(Parameters::try_from(""), Err(()));
}
