use excel_dll_postgres_rust::convert::{RawCell, SqlType, UnsupportedPolicy};
use excel_dll_postgres_rust::ordered::{ColumnArrays, OrderedJson};
use excel_dll_postgres_rust::json::JsonValue;
use excel_dll_postgres_rust::pack::{pack_tbl_into_arr_in_obj, pack_tbl_into_obj_in_arr, Column, ResultSet};

fn col(name: &str, t: SqlType) -> Column {
    Column { name: name.to_string(), column_type: t }
}

fn rows_text(v: &[OrderedJson]) -> String {
    let parts: Vec<String> = v
        .iter()
        .map(|o| {
            let mut s = String::new();
            o.write(&mut s);
            s
        })
        .collect();
    format!("[{}]", parts.join(","))
}

fn cols_text(c: &ColumnArrays) -> String {
    let mut s = String::new();
    c.write(&mut s);
    s
}

fn sample() -> ResultSet {
    ResultSet {
        columns: vec![col("z", SqlType::Int4), col("a", SqlType::Other("text".to_string()))],
        rows: vec![
            vec![RawCell::Int4(1), RawCell::Text("x".to_string())],
            vec![RawCell::Null, RawCell::Text("y".to_string())],
        ],
    }
}

#[test]
fn row_objects_keep_column_order() {
    let v = pack_tbl_into_obj_in_arr(&sample(), UnsupportedPolicy::AsNull).ok().unwrap();
    assert_eq!(rows_text(&v), r#"[{"z":1,"a":"x"},{"z":null,"a":"y"}]"#);
}

#[test]
fn column_arrays_are_the_transpose() {
    let c = pack_tbl_into_arr_in_obj(&sample(), UnsupportedPolicy::AsNull).ok().unwrap();
    assert_eq!(cols_text(&c), r#"{"z":[1,null],"a":["x","y"]}"#);
    let rows: serde_json::Value =
        serde_json::from_str(&rows_text(&pack_tbl_into_obj_in_arr(&sample(), UnsupportedPolicy::AsNull).ok().unwrap()))
            .unwrap();
    let cols: serde_json::Value = serde_json::from_str(&cols_text(&c)).unwrap();
    for (i, row) in rows.as_array().unwrap().iter().enumerate() {
        for k in ["z", "a"] {
            assert_eq!(row[k], cols[k][i]);
        }
    }
}

#[test]
fn no_rows_gives_empty_shapes() {
    let rs = ResultSet { columns: vec![col("a", SqlType::Int4)], rows: vec![] };
    assert_eq!(rows_text(&pack_tbl_into_obj_in_arr(&rs, UnsupportedPolicy::AsNull).ok().unwrap()), "[]");
    assert_eq!(cols_text(&pack_tbl_into_arr_in_obj(&rs, UnsupportedPolicy::AsNull).ok().unwrap()), "{}");
}

#[test]
fn repeated_column_names_follow_ordered_map_rules() {
    let rs = ResultSet {
        columns: vec![col("a", SqlType::Int4), col("b", SqlType::Int4), col("a", SqlType::Int4)],
        rows: vec![vec![RawCell::Int4(1), RawCell::Int4(2), RawCell::Int4(3)]],
    };
    assert_eq!(rows_text(&pack_tbl_into_obj_in_arr(&rs, UnsupportedPolicy::AsNull).ok().unwrap()), r#"[{"a":3,"b":2}]"#);
    assert_eq!(cols_text(&pack_tbl_into_arr_in_obj(&rs, UnsupportedPolicy::AsNull).ok().unwrap()), r#"{"a":[1,3],"b":[2]}"#);
}

#[test]
fn first_failing_cell_fails_the_table() {
    let rs = ResultSet {
        columns: vec![col("a", SqlType::Int4)],
        rows: vec![vec![RawCell::Int4(1)], vec![RawCell::Unreadable("first".to_string())], vec![RawCell::Unreadable("second".to_string())]],
    };
    let e = pack_tbl_into_obj_in_arr(&rs, UnsupportedPolicy::AsNull).err().unwrap();
    assert_eq!(e.tech_descr(), Some("first"));
    let e = pack_tbl_into_arr_in_obj(&rs, UnsupportedPolicy::AsNull).err().unwrap();
    assert_eq!(e.tech_descr(), Some("first"));
}

#[test]
fn ordered_object_insert_replaces_in_place() {
    let mut o = OrderedJson::new();
    o.insert("k".to_string(), JsonValue::Bool(true));
    o.insert("j".to_string(), JsonValue::Null);
    o.insert("k".to_string(), JsonValue::Number("5".to_string()));
    assert_eq!(o.len(), 2);
    let mut s = String::new();
    o.write(&mut s);
    assert_eq!(s, r#"{"k":5,"j":null}"#);
}

#[test]
fn column_arrays_push() {
    let mut c = ColumnArrays::new();
    c.push("b".to_string(), JsonValue::String("q\"".to_string()));
    c.push("a".to_string(), JsonValue::Null);
    c.push("b".to_string(), JsonValue::Bool(false));
    assert_eq!(c.len(), 2);
    assert_eq!(cols_text(&c), r#"{"b":["q\"",false],"a":[null]}"#);
}
