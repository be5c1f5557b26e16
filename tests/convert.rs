use excel_dll_postgres_rust::convert::{
    convert_to_serde_json_type, RawCell, SqlDate, SqlType, UnsupportedPolicy,
};
use excel_dll_postgres_rust::error::Error;
use excel_dll_postgres_rust::json::{push_quoted, push_scalar, JsonValue};

fn text_of(v: &JsonValue) -> String {
    let mut s = String::new();
    push_scalar(&mut s, v);
    s
}

fn conv(cell: RawCell, t: SqlType) -> String {
    text_of(&convert_to_serde_json_type(&cell, &t, UnsupportedPolicy::AsNull).ok().unwrap())
}

fn conv_err(cell: RawCell, t: SqlType, p: UnsupportedPolicy) -> Error {
    match convert_to_serde_json_type(&cell, &t, p) {
        Err(e) => e,
        Ok(_) => panic!("expected an error"),
    }
}

fn all_types() -> Vec<SqlType> {
    vec![
        SqlType::Bool,
        SqlType::Char,
        SqlType::Int2,
        SqlType::Int4,
        SqlType::Oid,
        SqlType::Int8,
        SqlType::Float4,
        SqlType::Float8,
        SqlType::Numeric,
        SqlType::Date,
        SqlType::Json,
        SqlType::Jsonb,
        SqlType::TextArray,
        SqlType::Other("varchar".to_string()),
    ]
}

#[test]
fn null_is_null_for_every_type() {
    for t in all_types() {
        for p in [UnsupportedPolicy::AsNull, UnsupportedPolicy::Reject] {
            let v = convert_to_serde_json_type(&RawCell::Null, &t, p).ok().unwrap();
            assert_eq!(text_of(&v), "null");
        }
    }
}

#[test]
fn booleans() {
    assert_eq!(conv(RawCell::Bool(true), SqlType::Bool), "true");
    assert_eq!(conv(RawCell::Bool(false), SqlType::Bool), "false");
}

#[test]
fn integers_keep_every_digit() {
    assert_eq!(conv(RawCell::Int2(i16::MIN), SqlType::Int2), "-32768");
    assert_eq!(conv(RawCell::Int4(0), SqlType::Int4), "0");
    assert_eq!(conv(RawCell::Oid(u32::MAX), SqlType::Oid), "4294967295");
    assert_eq!(conv(RawCell::Int8(i64::MAX), SqlType::Int8), "9223372036854775807");
    assert_eq!(conv(RawCell::Int8(i64::MIN), SqlType::Int8), "-9223372036854775808");
    assert_eq!(conv(RawCell::Int8(9007199254740993), SqlType::Int8), "9007199254740993");
}

#[test]
fn floats_use_their_literal_and_non_finite_is_null() {
    assert_eq!(conv(RawCell::Float(Some("1.5".to_string())), SqlType::Float8), "1.5");
    assert_eq!(conv(RawCell::Float(None), SqlType::Float4), "null");
}

fn numeric(weight: i16, sign: u16, dscale: u16, groups: &[u16]) -> RawCell {
    let mut b = Vec::new();
    b.extend_from_slice(&(groups.len() as u16).to_be_bytes());
    b.extend_from_slice(&weight.to_be_bytes());
    b.extend_from_slice(&sign.to_be_bytes());
    b.extend_from_slice(&dscale.to_be_bytes());
    for g in groups {
        b.extend_from_slice(&g.to_be_bytes());
    }
    RawCell::Numeric(b)
}

#[test]
fn decimal_with_ten_significant_digits_is_exact() {
    assert_eq!(conv(numeric(1, 0, 5, &[1, 2345, 6789]), SqlType::Numeric), "12345.67890");
    assert_eq!(conv(numeric(2, 0x4000, 0, &[98, 7654, 3211]), SqlType::Numeric), "-9876543211");
    assert_eq!(conv(numeric(-1, 0, 3, &[50]), SqlType::Numeric), "0.005");
    assert_eq!(conv(numeric(0, 0, 0, &[]), SqlType::Numeric), "0");
    assert_eq!(conv(numeric(2, 0, 2, &[1]), SqlType::Numeric), "100000000.00");
}

#[test]
fn non_finite_and_malformed_decimals() {
    assert_eq!(conv(numeric(0, 0xC000, 0, &[]), SqlType::Numeric), "null");
    assert_eq!(conv(numeric(0, 0xD000, 0, &[]), SqlType::Numeric), "null");
    let e = conv_err(RawCell::Numeric(vec![0, 1, 0]), SqlType::Numeric, UnsupportedPolicy::AsNull);
    assert_eq!(e.code(), "0310");
    let e = conv_err(numeric(0, 0, 0, &[10000]), SqlType::Numeric, UnsupportedPolicy::AsNull);
    assert_eq!(e.code(), "0310");
}

#[test]
fn dates_as_iso_text() {
    let d = |year, month, day| RawCell::Date(SqlDate { year, month, day });
    assert_eq!(conv(d(2024, 3, 5), SqlType::Date), "\"2024-03-05\"");
    assert_eq!(conv(d(5, 12, 31), SqlType::Date), "\"0005-12-31\"");
    assert_eq!(conv(d(10000, 1, 1), SqlType::Date), "\"+10000-01-01\"");
    assert_eq!(conv(d(-1, 1, 1), SqlType::Date), "\"-0001-01-01\"");
}

#[test]
fn dates_match_chrono_formatting() {
    for (y, m, dd) in [(1899, 12, 30), (1, 1, 1), (9999, 12, 31), (-44, 3, 15), (12345, 6, 7)] {
        let expected = chrono::NaiveDate::from_ymd_opt(y, m, dd).unwrap().format("%Y-%m-%d").to_string();
        let got = conv(RawCell::Date(SqlDate { year: y, month: m, day: dd }), SqlType::Date);
        assert_eq!(got, format!("\"{}\"", expected));
    }
}

#[test]
fn json_is_nested_as_a_string() {
    assert_eq!(conv(RawCell::Json("{\"k\":1}".to_string()), SqlType::Jsonb), r#""{\"k\":1}""#);
    assert_eq!(conv(RawCell::Json("[1,2]".to_string()), SqlType::Json), r#""[1,2]""#);
}

#[test]
fn text_arrays_in_brace_form() {
    let es = vec![Some("a".to_string()), Some(String::new()), None, Some("b c".to_string())];
    assert_eq!(conv(RawCell::TextArray(es), SqlType::TextArray), r#""{a,\"\",NULL,b c}""#);
    assert_eq!(conv(RawCell::TextArray(vec![]), SqlType::TextArray), r#""{}""#);
}

#[test]
fn single_character_code() {
    assert_eq!(conv(RawCell::Char(65), SqlType::Char), "\"A\"");
    let e = conv_err(RawCell::Char(-1), SqlType::Char, UnsupportedPolicy::AsNull);
    assert_eq!(e.code(), "0810");
}

#[test]
fn other_types_by_text_or_policy() {
    assert_eq!(conv(RawCell::Text("hi".to_string()), SqlType::Other("varchar".to_string())), "\"hi\"");
    assert_eq!(conv(RawCell::NoText, SqlType::Other("point".to_string())), "null");
    let e = conv_err(RawCell::NoText, SqlType::Other("point".to_string()), UnsupportedPolicy::Reject);
    assert_eq!(e.code(), "0431");
    assert_eq!(e.descr(), "Тип столбца базы данных 'point' не поддерживается");
    assert!(e.tech_descr().is_none());
}

#[test]
fn unreadable_and_mismatched_cells() {
    let e = conv_err(RawCell::Unreadable("bad bytes".to_string()), SqlType::Int4, UnsupportedPolicy::AsNull);
    assert_eq!(e.code(), "0310");
    assert_eq!(e.descr(), "Не удалось конвертировать тип базы данных 'int4' в rust-тип");
    assert_eq!(e.tech_descr(), Some("bad bytes"));
    let e = conv_err(RawCell::Bool(true), SqlType::Int8, UnsupportedPolicy::AsNull);
    assert_eq!(e.code(), "0310");
}

#[test]
fn string_escaping_matches_serde_json() {
    let samples = ["plain", "quote\" back\\slash", "tab\tnl\ncr\r", "\u{1}\u{8}\u{c}\u{1f}\u{7f}", "юникод 😀", ""];
    for s in samples {
        let mut out = String::new();
        push_quoted(&mut out, s);
        assert_eq!(out, serde_json::to_string(s).unwrap());
    }
}

#[test]
fn every_error_code() {
    let cases = vec![
        (Error::InvalidUtf16OnInput("x".to_string()), "0020"),
        (Error::ServerNotAvailable, "0131"),
        (Error::DbConnection("x".to_string()), "0132"),
        (Error::SqlExecution("x".to_string()), "0222"),
        (Error::DbTypeConversion { err: "x".to_string(), column_type: "t".to_string() }, "0310"),
        (Error::DbTypeSupport("t".to_string()), "0431"),
        (Error::RuntimeCreation("x".to_string()), "0510"),
        (Error::Serialization("x".to_string()), "0610"),
        (Error::Deserialization("x".to_string()), "0720"),
        (Error::InternalLogic("x".to_string()), "0810"),
    ];
    for (e, code) in cases {
        assert_eq!(e.code(), code);
        assert!(!e.descr().is_empty());
    }
    assert!(Error::ServerNotAvailable.tech_descr().is_none());
    assert_eq!(Error::SqlExecution("boom".to_string()).tech_descr(), Some("boom"));
}
