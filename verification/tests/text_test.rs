use easydb::date_utils::format_duration;
use easydb::parse::EasyDBDialect;
use easydb::text::{
    chars_of, decimal_string, float_literal_test, parse_i64, parse_u8, same_text,
    signed_decimal_string,
};
use easydb::timestamp::{choose_reading, parse_timestamp};

const SAMPLES: [&str; 64] = [
    "", "0", "7", "42", "-42", "+42", "007", "-0", "+0", "-", "+", "--1", "+-1", "1 ", " 1",
    "255", "256", "0255", "+255", "-255", "1000", "9223372036854775807", "9223372036854775808",
    "-9223372036854775808", "-9223372036854775809", "00000000000000000000000001",
    "99999999999999999999999999", "1.5", "1.", ".5", ".", "1e5", "1E5", "1e", "1e+", "1e+5",
    "1e-5", "1.5e10", ".5e-3", "-.5", "+.5E+2", "e5", "1e5.5", "1.2.3", "inf", "INF", "-inf",
    "+Infinity", "infinity", "infinit", "nan", "NaN", "-nan", "nana", "true", "NULL", "abc",
    "12a", "a12", "1_000", "0x10", "١٢٣", "1\u{00e9}", "'",
];

#[test]
fn parse_i64_reads_what_std_reads() {
    for s in SAMPLES.iter() {
        assert_eq!(parse_i64(s), s.parse::<i64>().ok(), "input {:?}", s);
    }
}

#[test]
fn parse_u8_reads_what_std_reads() {
    for s in SAMPLES.iter() {
        assert_eq!(parse_u8(s), s.parse::<u8>().ok(), "input {:?}", s);
    }
}

#[test]
fn float_literal_test_accepts_what_std_accepts() {
    for s in SAMPLES.iter() {
        assert_eq!(float_literal_test(s), s.parse::<f64>().is_ok(), "input {:?}", s);
    }
}

#[test]
fn parse_i64_bounds() {
    assert_eq!(parse_i64("9223372036854775807"), Some(i64::MAX));
    assert_eq!(parse_i64("-9223372036854775808"), Some(i64::MIN));
    assert_eq!(parse_i64("9223372036854775808"), None);
    assert_eq!(parse_i64("-9223372036854775809"), None);
}

#[test]
fn parse_u8_bounds() {
    assert_eq!(parse_u8("0"), Some(0));
    assert_eq!(parse_u8("255"), Some(255));
    assert_eq!(parse_u8("256"), None);
    assert_eq!(parse_u8("-1"), None);
    assert_eq!(parse_u8("+9"), Some(9));
}

#[test]
fn decimal_string_writes_what_std_writes() {
    for n in [0u64, 1, 9, 10, 11, 99, 100, 12345, u64::MAX] {
        assert_eq!(decimal_string(n), n.to_string());
    }
    for i in [0i64, 1, -1, 10, -10, 100, i64::MAX, i64::MIN] {
        assert_eq!(signed_decimal_string(i), i.to_string());
    }
}

#[test]
fn chars_of_keeps_every_character() {
    assert_eq!(chars_of(""), Vec::<char>::new());
    assert_eq!(chars_of("a'b"), vec!['a', '\'', 'b']);
    assert_eq!(chars_of("其他"), vec!['其', '他']);
}

#[test]
fn same_text_compares_characters() {
    assert!(same_text("", ""));
    assert!(same_text("read_csv", "read_csv"));
    assert!(!same_text("read_csv", "read_tsv"));
    assert!(!same_text("read_csv", "read_cs"));
    assert!(!same_text("Read_csv", "read_csv"));
}

#[test]
fn timestamp_of_a_date_with_a_time() {
    assert_eq!(parse_timestamp("2024-01-02 03:04:05"), Some(1_704_164_645_000_000_000));
    assert_eq!(parse_timestamp("1970-01-01 00:00:00"), Some(0));
    assert_eq!(parse_timestamp("1969-12-31 23:59:59"), Some(-1_000_000_000));
}

#[test]
fn timestamp_of_other_text_is_missing() {
    assert_eq!(parse_timestamp(""), None);
    assert_eq!(parse_timestamp("45000.5"), None);
    assert_eq!(parse_timestamp("2024-01-02T03:04:05"), None);
    assert_eq!(parse_timestamp("2024-13-02 03:04:05"), None);
    assert_eq!(parse_timestamp("not a date"), None);
}

#[test]
fn timestamp_out_of_range_is_missing() {
    assert_eq!(parse_timestamp("2262-04-11 23:47:16"), Some(9_223_372_036_000_000_000));
    assert_eq!(parse_timestamp("2262-04-11 23:47:17"), None);
    assert_eq!(parse_timestamp("1677-09-21 00:12:43"), None);
    assert_eq!(parse_timestamp("1677-09-21 00:12:44"), Some(-9_223_372_036_000_000_000));
}

#[test]
fn choose_reading_prefers_the_first_layout() {
    assert_eq!(choose_reading(Some(Some(1)), Some(Some(2))), Some(1));
    assert_eq!(choose_reading(Some(None), Some(Some(2))), None);
    assert_eq!(choose_reading(None, Some(Some(2))), Some(2));
    assert_eq!(choose_reading(None, Some(None)), None);
    assert_eq!(choose_reading(None, None), None);
}

#[test]
fn duration_as_text() {
    assert_eq!(format_duration(0), "0ms");
    assert_eq!(format_duration(-5), "0ms");
    assert_eq!(format_duration(4), "4ms");
    assert_eq!(format_duration(1_000), "1s");
    assert_eq!(format_duration(61_000), "1m 1s");
    assert_eq!(format_duration(3_723_004), "1h 2m 3s 4ms");
    assert_eq!(format_duration(3_600_000), "1h");
    assert_eq!(format_duration(7_200_500), "2h 500ms");
}

#[test]
fn dialect_identifiers_follow_the_generic_dialect() {
    let dialect = EasyDBDialect;
    assert!(dialect.is_identifier_start('a'));
    assert!(dialect.is_identifier_start('_'));
    assert!(dialect.is_identifier_start('#'));
    assert!(dialect.is_identifier_start('@'));
    assert!(dialect.is_identifier_start('表'));
    assert!(!dialect.is_identifier_start('1'));
    assert!(!dialect.is_identifier_start('$'));
    assert!(!dialect.is_identifier_start(' '));
    assert!(dialect.is_identifier_part('a'));
    assert!(dialect.is_identifier_part('1'));
    assert!(dialect.is_identifier_part('$'));
    assert!(!dialect.is_identifier_part('-'));
    assert!(!dialect.is_identifier_part('('));
    assert!(!dialect.supports_named_fn_args_with_expr_name());
}
