use vstd::prelude::*;
use crate::error::{Error, ErrorModel};
use crate::json::{JsonModel, JsonValue, join, lemma_join_step, push_separator};
use crate::numeric::{numeric_is_finite, numeric_literal, numeric_text, numeric_wf};

verus! {

/// The declared type of a result-set column.
pub enum SqlType {
    Bool,
    Char,
    Int2,
    Int4,
    Oid,
    Int8,
    Float4,
    Float8,
    Numeric,
    Date,
    Json,
    Jsonb,
    TextArray,
    /// Any other type, by its name in the store.
    Other(String),
}

/// Mathematical model of a [`SqlType`].
pub enum TypeModel {
    Bool,
    Char,
    Int2,
    Int4,
    Oid,
    Int8,
    Float4,
    Float8,
    Numeric,
    Date,
    Json,
    Jsonb,
    TextArray,
    Other(Seq<char>),
}

impl View for SqlType {
    type V = TypeModel;

    open spec fn view(&self) -> TypeModel {
        match self {
            SqlType::Bool => TypeModel::Bool,
            SqlType::Char => TypeModel::Char,
            SqlType::Int2 => TypeModel::Int2,
            SqlType::Int4 => TypeModel::Int4,
            SqlType::Oid => TypeModel::Oid,
            SqlType::Int8 => TypeModel::Int8,
            SqlType::Float4 => TypeModel::Float4,
            SqlType::Float8 => TypeModel::Float8,
            SqlType::Numeric => TypeModel::Numeric,
            SqlType::Date => TypeModel::Date,
            SqlType::Json => TypeModel::Json,
            SqlType::Jsonb => TypeModel::Jsonb,
            SqlType::TextArray => TypeModel::TextArray,
            SqlType::Other(n) => TypeModel::Other(n@),
        }
    }
}

/// The store's name of a type.
pub open spec fn sql_type_name(t: TypeModel) -> Seq<char> {
    match t {
        TypeModel::Bool => "bool"@,
        TypeModel::Char => "char"@,
        TypeModel::Int2 => "int2"@,
        TypeModel::Int4 => "int4"@,
        TypeModel::Oid => "oid"@,
        TypeModel::Int8 => "int8"@,
        TypeModel::Float4 => "float4"@,
        TypeModel::Float8 => "float8"@,
        TypeModel::Numeric => "numeric"@,
        TypeModel::Date => "date"@,
        TypeModel::Json => "json"@,
        TypeModel::Jsonb => "jsonb"@,
        TypeModel::TextArray => "_text"@,
        TypeModel::Other(n) => n,
    }
}

impl SqlType {
    pub fn name(&self) -> (r: String)
        ensures
            r@ == sql_type_name(self@),
    {
        match self {
            SqlType::Bool => String::from_str("bool"),
            SqlType::Char => String::from_str("char"),
            SqlType::Int2 => String::from_str("int2"),
            SqlType::Int4 => String::from_str("int4"),
            SqlType::Oid => String::from_str("oid"),
            SqlType::Int8 => String::from_str("int8"),
            SqlType::Float4 => String::from_str("float4"),
            SqlType::Float8 => String::from_str("float8"),
            SqlType::Numeric => String::from_str("numeric"),
            SqlType::Date => String::from_str("date"),
            SqlType::Json => String::from_str("json"),
            SqlType::Jsonb => String::from_str("jsonb"),
            SqlType::TextArray => String::from_str("_text"),
            SqlType::Other(n) => n.clone(),
        }
    }
}

/// A calendar date as the store holds it.
pub struct SqlDate {
    pub year: i32,
    pub month: u32,
    pub day: u32,
}

/// One cell of a result set, as read by the store's driver for the column's
/// declared type.
pub enum RawCell {
    /// SQL null, whatever the declared type.
    Null,
    Bool(bool),
    /// The code of a single-byte character.
    Char(i8),
    Int2(i16),
    Int4(i32),
    Oid(u32),
    Int8(i64),
    /// The shortest decimal literal of a finite float; `None` where it is not finite.
    Float(Option<String>),
    /// The store's binary form of a NUMERIC value.
    Numeric(Vec<u8>),
    Date(SqlDate),
    /// The JSON text of a JSON or JSONB value.
    Json(String),
    /// The elements of a one-dimensional text array.
    TextArray(Vec<Option<String>>),
    /// The text of a value of any other type.
    Text(String),
    /// A value of a type that has no text form.
    NoText,
    /// The driver's message where the value could not be read as its declared type.
    Unreadable(String),
}

/// Mathematical model of a [`RawCell`].
pub enum CellModel {
    Null,
    Bool(bool),
    Char(i8),
    Int2(i16),
    Int4(i32),
    Oid(u32),
    Int8(i64),
    Float(Option<Seq<char>>),
    Numeric(Seq<u8>),
    Date(i32, u32, u32),
    Json(Seq<char>),
    TextArray(Seq<Option<Seq<char>>>),
    Text(Seq<char>),
    NoText,
    Unreadable(Seq<char>),
}

pub open spec fn opt_view(o: Option<String>) -> Option<Seq<char>> {
    match o {
        Some(s) => Some(s@),
        None => None,
    }
}

impl View for RawCell {
    type V = CellModel;

    open spec fn view(&self) -> CellModel {
        match self {
            RawCell::Null => CellModel::Null,
            RawCell::Bool(b) => CellModel::Bool(*b),
            RawCell::Char(v) => CellModel::Char(*v),
            RawCell::Int2(v) => CellModel::Int2(*v),
            RawCell::Int4(v) => CellModel::Int4(*v),
            RawCell::Oid(v) => CellModel::Oid(*v),
            RawCell::Int8(v) => CellModel::Int8(*v),
            RawCell::Float(t) => CellModel::Float(opt_view(*t)),
            RawCell::Numeric(b) => CellModel::Numeric(b@),
            RawCell::Date(d) => CellModel::Date(d.year, d.month, d.day),
            RawCell::Json(t) => CellModel::Json(t@),
            RawCell::TextArray(es) => CellModel::TextArray(es@.map_values(|e: Option<String>| opt_view(e))),
            RawCell::Text(t) => CellModel::Text(t@),
            RawCell::NoText => CellModel::NoText,
            RawCell::Unreadable(m) => CellModel::Unreadable(m@),
        }
    }
}

/// What becomes of a value whose type has no conversion rule and no text form.
/// The choice is made once, by the caller, for a whole batch.
#[derive(Clone, Copy, PartialEq, Eq, Structural)]
pub enum UnsupportedPolicy {
    /// It becomes JSON null.
    AsNull,
    /// It is reported as a type-support error.
    Reject,
}

/// The policy of this bridge: values without a text form become null.
pub const UNSUPPORTED_POLICY: UnsupportedPolicy = UnsupportedPolicy::AsNull;

pub open spec fn digit_char(d: int) -> char {
    (48 + d) as char
}

/// The decimal digits of a natural number.
pub open spec fn nat_text(n: nat) -> Seq<char>
    decreases n,
{
    if n < 10 {
        seq![digit_char(n as int)]
    } else {
        nat_text(n / 10) + seq![digit_char(n as int % 10)]
    }
}

pub open spec fn int_text(v: int) -> Seq<char> {
    if v < 0 {
        seq!['-'] + nat_text((-v) as nat)
    } else {
        nat_text(v as nat)
    }
}

/// The digits of `n`, with zeros in front up to `width` characters.
pub open spec fn zero_padded(n: nat, width: nat) -> Seq<char> {
    let t = nat_text(n);
    if t.len() >= width {
        t
    } else {
        Seq::new((width - t.len()) as nat, |i: int| '0') + t
    }
}

/// `YYYY-MM-DD`, the year signed where it lies outside 0 to 9999.
pub open spec fn date_text(year: i32, month: u32, day: u32) -> Seq<char> {
    let y = if 0 <= year <= 9999 {
        zero_padded(year as nat, 4)
    } else if year < 0 {
        seq!['-'] + zero_padded((-year) as nat, 4)
    } else {
        seq!['+'] + zero_padded(year as nat, 4)
    };
    y + seq!['-'] + zero_padded(month as nat, 2) + seq!['-'] + zero_padded(day as nat, 2)
}

pub open spec fn array_elem_text(e: Option<Seq<char>>) -> Seq<char> {
    match e {
        None => "NULL"@,
        Some(s) => if s.len() == 0 {
            seq!['"', '"']
        } else {
            s
        },
    }
}

/// The store's brace-delimited text form of a text array.
pub open spec fn array_literal(es: Seq<Option<Seq<char>>>) -> Seq<char> {
    seq!['{'] + join(es.map_values(|e: Option<Seq<char>>| array_elem_text(e))) + seq!['}']
}

pub open spec fn mismatch_error(t: TypeModel) -> ErrorModel {
    ErrorModel::DbTypeConversion { err: "value does not match the declared type"@, column_type: sql_type_name(t) }
}

/// The conversion table: what one cell of a column of type `t` becomes.
pub open spec fn convert_spec(c: CellModel, t: TypeModel, policy: UnsupportedPolicy) -> Result<JsonModel, ErrorModel> {
    match c {
        CellModel::Null => Ok(JsonModel::Null),
        CellModel::Unreadable(m) => Err(ErrorModel::DbTypeConversion { err: m, column_type: sql_type_name(t) }),
        _ => match (t, c) {
            (TypeModel::Bool, CellModel::Bool(b)) => Ok(JsonModel::Bool(b)),
            (TypeModel::Char, CellModel::Char(v)) => if v >= 0 {
                Ok(JsonModel::Str(seq![v as char]))
            } else {
                Err(ErrorModel::InternalLogic("impossible code point for a character"@))
            },
            (TypeModel::Int2, CellModel::Int2(v)) => Ok(JsonModel::Number(int_text(v as int))),
            (TypeModel::Int4, CellModel::Int4(v)) => Ok(JsonModel::Number(int_text(v as int))),
            (TypeModel::Oid, CellModel::Oid(v)) => Ok(JsonModel::Number(int_text(v as int))),
            (TypeModel::Int8, CellModel::Int8(v)) => Ok(JsonModel::Number(int_text(v as int))),
            (TypeModel::Float4, CellModel::Float(f)) | (TypeModel::Float8, CellModel::Float(f)) => match f {
                Some(lit) => Ok(JsonModel::Number(lit)),
                None => Ok(JsonModel::Null),
            },
            (TypeModel::Numeric, CellModel::Numeric(b)) => if !numeric_wf(b) {
                Err(ErrorModel::DbTypeConversion { err: "invalid numeric value"@, column_type: "numeric"@ })
            } else if numeric_is_finite(b) {
                Ok(JsonModel::Number(numeric_text(b)))
            } else {
                Ok(JsonModel::Null)
            },
            (TypeModel::Date, CellModel::Date(y, m, d)) => Ok(JsonModel::Str(date_text(y, m, d))),
            (TypeModel::Json, CellModel::Json(j)) | (TypeModel::Jsonb, CellModel::Json(j)) => Ok(JsonModel::Str(j)),
            (TypeModel::TextArray, CellModel::TextArray(es)) => Ok(JsonModel::Str(array_literal(es))),
            (TypeModel::Other(_), CellModel::Text(s)) => Ok(JsonModel::Str(s)),
            (TypeModel::Other(n), CellModel::NoText) => match policy {
                UnsupportedPolicy::AsNull => Ok(JsonModel::Null),
                UnsupportedPolicy::Reject => Err(ErrorModel::DbTypeSupport(n)),
            },
            _ => Err(mismatch_error(t)),
        },
    }
}

fn digit(d: u64) -> (c: char)
    requires
        d < 10,
    ensures
        c == digit_char(d as int),
{
    ((d as u8) + 48) as char
}

/// Appends the decimal digits of `n` to `out`.
pub fn push_nat(out: &mut String, n: u64)
    ensures
        final(out)@ == old(out)@ + nat_text(n as nat),
    decreases n,
{
    let ghost start = out@;
    if n >= 10 {
        push_nat(out, n / 10);
    }
    out.push(digit(n % 10));
    assert(out@ =~= start + nat_text(n as nat));
}

/// Appends the decimal literal of `v` to `out`.
pub fn push_int(out: &mut String, v: i64)
    ensures
        final(out)@ == old(out)@ + int_text(v as int),
{
    let ghost start = out@;
    if v < 0 {
        out.push('-');
        let m: u64 = (0 - (v as i128)) as u64;
        push_nat(out, m);
        assert(out@ =~= start + int_text(v as int));
    } else {
        push_nat(out, v as u64);
    }
}

/// Appends the digits of `n`, zero-padded to `width` characters, to `out`.
pub fn push_zero_padded(out: &mut String, n: u64, width: usize)
    ensures
        final(out)@ == old(out)@ + zero_padded(n as nat, width as nat),
{
    let ghost start = out@;
    let mut t = String::new();
    push_nat(&mut t, n);
    assert(t@ =~= nat_text(n as nat));
    let len = t.as_str().unicode_len();
    if len < width {
        let mut k: usize = len;
        while k < width
            invariant
                len <= k <= width,
                out@ == start + Seq::new((k - len) as nat, |i: int| '0'),
            decreases width - k,
        {
            out.push('0');
            k = k + 1;
            assert(out@ =~= start + Seq::new((k - len) as nat, |i: int| '0'));
        }
    }
    out.append(t.as_str());
    assert(out@ =~= start + zero_padded(n as nat, width as nat));
}

/// Appends `YYYY-MM-DD` for the date to `out`.
pub fn push_date(out: &mut String, year: i32, month: u32, day: u32)
    ensures
        final(out)@ == old(out)@ + date_text(year, month, day),
{
    let ghost start = out@;
    if 0 <= year && year <= 9999 {
        push_zero_padded(out, year as u64, 4);
    } else if year < 0 {
        out.push('-');
        push_zero_padded(out, (0 - (year as i64)) as u64, 4);
    } else {
        out.push('+');
        push_zero_padded(out, year as u64, 4);
    }
    out.push('-');
    push_zero_padded(out, month as u64, 2);
    out.push('-');
    push_zero_padded(out, day as u64, 2);
    assert(out@ =~= start + date_text(year, month, day));
}

/// Appends the store's text form of a text array to `out`.
pub fn push_array_literal(out: &mut String, es: &Vec<Option<String>>)
    ensures
        final(out)@ == old(out)@ + array_literal(es@.map_values(|e: Option<String>| opt_view(e))),
{
    let ghost start = out@;
    let ghost parts = es@.map_values(|e: Option<String>| opt_view(e)).map_values(
        |e: Option<Seq<char>>| array_elem_text(e),
    );
    out.push('{');
    let mut i: usize = 0;
    while i < es.len()
        invariant
            i <= es.len(),
            parts.len() == es.len(),
            parts == es@.map_values(|e: Option<String>| opt_view(e)).map_values(
                |e: Option<Seq<char>>| array_elem_text(e),
            ),
            out@ == start + seq!['{'] + join(parts.take(i as int)),
        decreases es.len() - i,
    {
        proof {
            lemma_join_step(parts, i as int);
        }
        push_separator(out, i);
        match &es[i] {
            None => out.append("NULL"),
            Some(s) => {
                if s.as_str().unicode_len() == 0 {
                    out.push('"');
                    out.push('"');
                } else {
                    out.append(s.as_str());
                }
            },
        }
        i = i + 1;
        assert(out@ =~= start + seq!['{'] + join(parts.take(i as int)));
    }
    assert(parts.take(es.len() as int) =~= parts);
    out.push('}');
    assert(out@ =~= start + array_literal(es@.map_values(|e: Option<String>| opt_view(e))));
}

pub open spec fn json_result_view(r: Result<JsonValue, Error>) -> Result<JsonModel, ErrorModel> {
    match r {
        Ok(v) => Ok(v@),
        Err(e) => Err(e@),
    }
}

fn text_value(build: String) -> (r: JsonValue)
    ensures
        r@ == JsonModel::Str(build@),
{
    JsonValue::String(build)
}

/// Converts one cell of a column of type `column_type` into a JSON value, by
/// the conversion table. SQL null is null whatever the type.
pub fn convert_to_serde_json_type(cell: &RawCell, column_type: &SqlType, policy: UnsupportedPolicy) -> (r: Result<JsonValue, Error>)
    ensures
        json_result_view(r) == convert_spec(cell@, column_type@, policy),
{
    match cell {
        RawCell::Null => {
            return Ok(JsonValue::Null);
        },
        RawCell::Unreadable(m) => {
            return Err(Error::DbTypeConversion { err: m.clone(), column_type: column_type.name() });
        },
        _ => {},
    }
    match (column_type, cell) {
        (SqlType::Bool, RawCell::Bool(b)) => Ok(JsonValue::Bool(*b)),
        (SqlType::Char, RawCell::Char(v)) => {
            if *v >= 0 {
                let c = (*v as u8) as char;
                let mut t = String::new();
                t.push(c);
                assert(t@ =~= seq![*v as char]);
                Ok(text_value(t))
            } else {
                Err(Error::InternalLogic(String::from_str("impossible code point for a character")))
            }
        },
        (SqlType::Int2, RawCell::Int2(v)) => {
            let mut t = String::new();
            push_int(&mut t, *v as i64);
            Ok(JsonValue::Number(t))
        },
        (SqlType::Int4, RawCell::Int4(v)) => {
            let mut t = String::new();
            push_int(&mut t, *v as i64);
            Ok(JsonValue::Number(t))
        },
        (SqlType::Oid, RawCell::Oid(v)) => {
            let mut t = String::new();
            push_int(&mut t, *v as i64);
            Ok(JsonValue::Number(t))
        },
        (SqlType::Int8, RawCell::Int8(v)) => {
            let mut t = String::new();
            push_int(&mut t, *v);
            Ok(JsonValue::Number(t))
        },
        (SqlType::Float4, RawCell::Float(f)) | (SqlType::Float8, RawCell::Float(f)) => match f {
            Some(lit) => Ok(JsonValue::Number(lit.clone())),
            None => Ok(JsonValue::Null),
        },
        (SqlType::Numeric, RawCell::Numeric(b)) => match numeric_literal(b.as_slice()) {
            None => Err(Error::DbTypeConversion {
                err: String::from_str("invalid numeric value"),
                column_type: String::from_str("numeric"),
            }),
            Some(None) => Ok(JsonValue::Null),
            Some(Some(t)) => Ok(JsonValue::Number(t)),
        },
        (SqlType::Date, RawCell::Date(d)) => {
            let mut t = String::new();
            push_date(&mut t, d.year, d.month, d.day);
            Ok(text_value(t))
        },
        (SqlType::Json, RawCell::Json(j)) | (SqlType::Jsonb, RawCell::Json(j)) => Ok(JsonValue::String(j.clone())),
        (SqlType::TextArray, RawCell::TextArray(es)) => {
            let mut t = String::new();
            push_array_literal(&mut t, es);
            Ok(text_value(t))
        },
        (SqlType::Other(_), RawCell::Text(s)) => Ok(JsonValue::String(s.clone())),
        (SqlType::Other(n), RawCell::NoText) => match policy {
            UnsupportedPolicy::AsNull => Ok(JsonValue::Null),
            UnsupportedPolicy::Reject => Err(Error::DbTypeSupport(n.clone())),
        },
        _ => Err(Error::DbTypeConversion {
            err: String::from_str("value does not match the declared type"),
            column_type: column_type.name(),
        }),
    }
}

/// SQL null converts to JSON null whatever the declared type and policy.
pub proof fn lemma_null_is_null(t: TypeModel, p: UnsupportedPolicy)
    ensures
        convert_spec(CellModel::Null, t, p) == Ok::<JsonModel, ErrorModel>(JsonModel::Null),
{
}

} // verus!
