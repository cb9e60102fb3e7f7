use divar_sweep::numbers::i64_to_string;
use divar_sweep::numbers::parse_i64;
use divar_sweep::rates::convert_records;
use divar_sweep::rates::parse_date;
use divar_sweep::rates::parse_price;
use divar_sweep::RateError;

fn s(text: &str) -> String {
    text.to_string()
}

#[test]
fn parse_i64_accepts_plain_decimals() {
    assert_eq!(parse_i64(&s("0")), Some(0));
    assert_eq!(parse_i64(&s("42")), Some(42));
    assert_eq!(parse_i64(&s("007")), Some(7));
    assert_eq!(parse_i64(&s("+42")), Some(42));
    assert_eq!(parse_i64(&s("-42")), Some(-42));
}

#[test]
fn parse_i64_matches_the_type_bounds() {
    assert_eq!(parse_i64(&s("9223372036854775807")), Some(i64::MAX));
    assert_eq!(parse_i64(&s("9223372036854775808")), None);
    assert_eq!(parse_i64(&s("-9223372036854775808")), Some(i64::MIN));
    assert_eq!(parse_i64(&s("-9223372036854775809")), None);
}

#[test]
fn parse_i64_rejects_everything_else() {
    assert_eq!(parse_i64(&s("")), None);
    assert_eq!(parse_i64(&s("-")), None);
    assert_eq!(parse_i64(&s("+")), None);
    assert_eq!(parse_i64(&s("1 2")), None);
    assert_eq!(parse_i64(&s("12a")), None);
    assert_eq!(parse_i64(&s("1.5")), None);
}

#[test]
fn i64_to_string_renders_decimals() {
    assert_eq!(i64_to_string(0), "0");
    assert_eq!(i64_to_string(7), "7");
    assert_eq!(i64_to_string(20230514), "20230514");
    assert_eq!(i64_to_string(-350), "-350");
    assert_eq!(i64_to_string(i64::MAX), "9223372036854775807");
    assert_eq!(i64_to_string(i64::MIN), "-9223372036854775808");
}

#[test]
fn date_strips_slashes() {
    assert_eq!(parse_date(&s("2023/05/14")), Some(20230514));
    assert_eq!(parse_date(&s("20230514")), Some(20230514));
    assert_eq!(parse_date(&s("2023-05-14")), None);
    assert_eq!(parse_date(&s("///")), None);
}

#[test]
fn price_strips_thousands_separators() {
    assert_eq!(parse_price(&s("502,350")), Some(502350));
    assert_eq!(parse_price(&s("1,234,567")), Some(1234567));
    assert_eq!(parse_price(&s("42")), Some(42));
    assert_eq!(parse_price(&s("42.5")), None);
}

#[test]
fn good_batch_converts_in_order() {
    let raw = vec![
        (Some(s("2023/05/14")), Some(s("502,350"))),
        (Some(s("2023/05/15")), Some(s("503,000"))),
    ];
    let rows = convert_records(&raw).expect("both records are well-formed");
    assert_eq!(rows, vec![(20230514, 502350), (20230515, 503000)]);
}

#[test]
fn empty_batch_converts_to_no_rows() {
    let raw: Vec<(Option<String>, Option<String>)> = vec![];
    assert_eq!(convert_records(&raw), Ok(vec![]));
}

#[test]
fn one_bad_record_aborts_the_whole_batch() {
    let raw = vec![
        (Some(s("2023/05/14")), Some(s("502,350"))),
        (Some(s("2023/05/xx")), Some(s("503,000"))),
        (Some(s("2023/05/16")), Some(s("504,000"))),
    ];
    assert_eq!(convert_records(&raw), Err(RateError::DateInvalid));
}

#[test]
fn each_defect_reports_its_own_error() {
    let good = (Some(s("2023/05/14")), Some(s("502,350")));
    assert_eq!(
        convert_records(&vec![good.clone(), (None, Some(s("1")))]),
        Err(RateError::DateMissing)
    );
    assert_eq!(
        convert_records(&vec![good.clone(), (Some(s("20x3")), Some(s("1")))]),
        Err(RateError::DateInvalid)
    );
    assert_eq!(
        convert_records(&vec![good.clone(), (Some(s("20230514")), None)]),
        Err(RateError::PriceMissing)
    );
    assert_eq!(
        convert_records(&vec![good.clone(), (Some(s("20230514")), Some(s("x")))]),
        Err(RateError::PriceInvalid)
    );
}

#[test]
fn the_first_bad_record_decides_the_error() {
    let raw = vec![
        (Some(s("bad")), Some(s("1"))),
        (None, Some(s("1"))),
    ];
    assert_eq!(convert_records(&raw), Err(RateError::DateInvalid));
}

#[test]
fn error_messages_match_the_log_lines() {
    assert_eq!(RateError::DateMissing.message(), "Missing or invalid date");
    assert_eq!(RateError::DateInvalid.message(), "Failed to parse date");
    assert_eq!(RateError::PriceMissing.message(), "Missing or invalid dollar_price");
    assert_eq!(RateError::PriceInvalid.message(), "Failed to parse dollar price");
}
