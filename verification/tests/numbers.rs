use lib_api::error::ValidationError;
use lib_api::number::{parse_ids, validate_float, validate_int};

#[test]
fn validate_int_reads_a_number() {
    assert_eq!(validate_int("2"), Ok(2));
}

#[test]
fn validate_int_rejects_a_letter() {
    assert_eq!(validate_int("a"), Err(ValidationError::InvalidInteger("a".to_string())));
}

#[test]
fn parse_ids_reads_a_list() {
    assert_eq!(parse_ids("1,2"), Ok(vec![1, 2]));
}

#[test]
fn parse_ids_reports_the_first_bad_piece() {
    assert_eq!(parse_ids("a,2"), Err(ValidationError::InvalidInteger("a".to_string())));
}

#[test]
fn validate_float_agrees_with_std() {
    let samples = [
        "1.1", "a", "", "+", "-", ".", "1.", ".5", "+.5", "-1.5e10", "1e5", "1E5", "1e", "1e+",
        "1e+5", "1e-5", "1.e5", ".e5", "e5", "inf", "+inf", "-INF", "infinity", "Infinity", "nan",
        "NaN", "-nan", "infinit", "in", "1_000", " 1", "1 ", "0x10", "1.5.2", "1f64", "--1",
        "+-1", "1e5.5", "00012.5000", "1e0005", "٣", "1..2", "inity",
    ];
    for text in samples {
        let expected = text.parse::<f64>().is_ok();
        assert_eq!(validate_float(text).is_ok(), expected, "{text:?}");
    }
}

#[test]
fn validate_int_agrees_with_std() {
    let samples = [
        "0", "-0", "+0", "1", "-1", "+1", "", "+", "-", "2147483647", "2147483648",
        "-2147483648", "-2147483649", "0000000000000000000001", "99999999999999999999999",
        "-99999999999999999999999", " 1", "1 ", "1a", "a1", "1.0", "1,2", "٣", "--1", "+-1",
        "0x10", "1_000",
    ];
    for text in samples {
        assert_eq!(validate_int(text).ok(), text.parse::<i32>().ok(), "{text:?}");
    }
}

#[test]
fn validate_int_reads_signs_and_bounds() {
    assert_eq!(validate_int("-2147483648"), Ok(i32::MIN));
    assert_eq!(validate_int("+2147483647"), Ok(i32::MAX));
    assert_eq!(validate_int("007"), Ok(7));
    assert_eq!(
        validate_int("2147483648"),
        Err(ValidationError::InvalidInteger("2147483648".to_string()))
    );
    assert_eq!(validate_int(""), Err(ValidationError::InvalidInteger(String::new())));
}

#[test]
fn parse_ids_keeps_order_and_repeats() {
    assert_eq!(parse_ids("3,1,3,-2"), Ok(vec![3, 1, 3, -2]));
    assert_eq!(parse_ids("5"), Ok(vec![5]));
}

#[test]
fn parse_ids_rejects_empty_pieces() {
    assert_eq!(parse_ids(""), Err(ValidationError::InvalidInteger(String::new())));
    assert_eq!(parse_ids("1,,2"), Err(ValidationError::InvalidInteger(String::new())));
    assert_eq!(parse_ids("1,2,"), Err(ValidationError::InvalidInteger(String::new())));
    assert_eq!(parse_ids(",1"), Err(ValidationError::InvalidInteger(String::new())));
}

#[test]
fn parse_ids_reports_the_piece_not_the_list() {
    assert_eq!(parse_ids("1,b,c"), Err(ValidationError::InvalidInteger("b".to_string())));
    assert_eq!(parse_ids("1, 2"), Err(ValidationError::InvalidInteger(" 2".to_string())));
    assert_eq!(parse_ids("1,é2,3"), Err(ValidationError::InvalidInteger("é2".to_string())));
}

#[test]
fn parse_ids_agrees_with_std_split() {
    let samples = ["1,2", "a,2", "", ",", "1,2,3,4", "10,-10,+10", "1;2", "2147483648,1", "1,2,x"];
    for text in samples {
        let expected: Result<Vec<i32>, String> = text
            .split(',')
            .map(|piece| piece.parse::<i32>().map_err(|_| piece.to_string()))
            .collect();
        let got = parse_ids(text).map_err(|e| match e {
            ValidationError::InvalidInteger(raw) => raw,
            other => panic!("{other:?}"),
        });
        assert_eq!(got, expected, "{text:?}");
    }
}

#[test]
fn validate_float_reads_a_number() {
    assert_eq!(validate_float("1.1"), Ok(()));
    assert_eq!(validate_float("-3"), Ok(()));
    assert_eq!(validate_float("2.5e-3"), Ok(()));
}

#[test]
fn validate_float_rejects_a_letter() {
    assert_eq!(validate_float("a"), Err(ValidationError::InvalidFloat("a".to_string())));
    assert_eq!(validate_float(""), Err(ValidationError::InvalidFloat(String::new())));
}
