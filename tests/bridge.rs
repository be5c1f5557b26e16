use excel_dll_postgres_rust::api::{map_rows_to_api_responses_vec, response_document, ApiRequest, ApiResponse};
use excel_dll_postgres_rust::convert::{RawCell, SqlType, UnsupportedPolicy, UNSUPPORTED_POLICY};
use excel_dll_postgres_rust::db::{DispatchAction, DispatchEvent, Dispatcher, Login};
use excel_dll_postgres_rust::error::Error;
use excel_dll_postgres_rust::pack::{Column, ResultSet};

fn col(name: &str, t: SqlType) -> Column {
    Column { name: name.to_string(), column_type: t }
}

fn req(sql: &str, id: Option<&str>, rows_as_objects: bool) -> ApiRequest {
    ApiRequest {
        sql_query: sql.to_string(),
        requesters_id: id.map(|s| s.to_string()),
        is_obj_in_arr_fmt: rows_as_objects,
    }
}

/// Drives a batch through the dispatcher with the given query outcomes and
/// renders the wire document.
fn run_batch(requests: Vec<ApiRequest>, outcomes: Vec<Result<ResultSet, String>>) -> String {
    let mut d = Dispatcher::new(requests.len());
    assert!(d.next_action() == DispatchAction::Connect);
    let mut action = d.step(DispatchEvent::Connected);
    let mut outcomes = outcomes.into_iter();
    loop {
        match action {
            DispatchAction::RunQuery(_) => {
                action = d.step(DispatchEvent::QueryDone(outcomes.next().unwrap()));
            }
            DispatchAction::Close => {
                action = d.step(DispatchEvent::Closed(None));
            }
            DispatchAction::Finish => break,
            DispatchAction::Connect => panic!("connect requested twice"),
        }
    }
    let batch = d.finish().map(|results| map_rows_to_api_responses_vec(requests, results, UNSUPPORTED_POLICY));
    response_document(&batch)
}

#[test]
fn lib_test() {
    let rs = ResultSet {
        columns: vec![col("a", SqlType::Int4), col("b", SqlType::Int4)],
        rows: vec![vec![RawCell::Int4(1), RawCell::Null]],
    };
    let doc = run_batch(vec![req("SELECT 1 AS a, NULL::int AS b", Some("s1"), false)], vec![Ok(rs)]);
    assert_eq!(doc, r#"[{"requesters_id":"s1","data":{"a":[1],"b":[null]}}]"#);
}

#[test]
fn second_request_syntax_error_keeps_first() {
    let rs = ResultSet {
        columns: vec![col("x", SqlType::Int8)],
        rows: vec![vec![RawCell::Int8(42)]],
    };
    let doc = run_batch(
        vec![req("SELECT 42 AS x", Some("r1"), true), req("SELEC oops", Some("r2"), true)],
        vec![Ok(rs), Err("syntax error at or near \"SELEC\"".to_string())],
    );
    assert_eq!(
        doc,
        r#"[{"requesters_id":"r1","data":[{"x":42}]},{"requesters_id":"r2","data":{"Err":{"code":"0222","descr":"Не удалось выполнить SQL-запрос","tech_descr":"syntax error at or near \"SELEC\""}}}]"#
    );
    let v: serde_json::Value = serde_json::from_str(&doc).unwrap();
    assert_eq!(v.as_array().unwrap().len(), 2);
}

#[test]
fn unreachable_host_gives_single_top_level_error() {
    let mut d = Dispatcher::new(2);
    let a = d.step(DispatchEvent::ConnectFailed(None));
    assert!(a == DispatchAction::Finish);
    let batch = d.finish().map(|results| {
        map_rows_to_api_responses_vec(vec![req("SELECT 1", None, true), req("SELECT 2", None, true)], results, UNSUPPORTED_POLICY)
    });
    assert!(batch.is_err());
    let doc = response_document(&batch);
    assert_eq!(doc, r#"{"Err":{"code":"0131","descr":"Сервер недоступен","tech_descr":null}}"#);
}

#[test]
fn refused_connection_carries_store_message() {
    let mut d = Dispatcher::new(1);
    d.step(DispatchEvent::ConnectFailed(Some("password authentication failed".to_string())));
    let batch: Result<Vec<ApiResponse>, Error> = d.finish().map(|_| Vec::new());
    let doc = response_document(&batch);
    assert_eq!(
        doc,
        r#"{"Err":{"code":"0132","descr":"Внешняя база данных отвергает подключение","tech_descr":"password authentication failed"}}"#
    );
}

#[test]
fn malformed_input_gives_single_top_level_error() {
    let batch: Result<Vec<ApiResponse>, Error> =
        Err(Error::Deserialization("expected value at line 1 column 1".to_string()));
    let doc = response_document(&batch);
    assert_eq!(
        doc,
        r#"{"Err":{"code":"0720","descr":"Не валидные аргументы переданы в dll","tech_descr":"expected value at line 1 column 1"}}"#
    );
}

#[test]
fn middle_query_failure_is_isolated() {
    let ok = |v: i32| ResultSet { columns: vec![col("v", SqlType::Int4)], rows: vec![vec![RawCell::Int4(v)]] };
    let doc = run_batch(
        vec![req("q0", Some("a"), false), req("q1", Some("b"), false), req("q2", None, false)],
        vec![Ok(ok(1)), Err("division by zero".to_string()), Ok(ok(3))],
    );
    let v: serde_json::Value = serde_json::from_str(&doc).unwrap();
    let arr = v.as_array().unwrap();
    assert_eq!(arr.len(), 3);
    assert_eq!(arr[0]["data"]["v"][0], 1);
    assert_eq!(arr[1]["data"]["Err"]["code"], "0222");
    assert_eq!(arr[1]["requesters_id"], "b");
    assert_eq!(arr[2]["data"]["v"][0], 3);
    assert!(arr[2]["requesters_id"].is_null());
}

#[test]
fn empty_batch_still_connects_and_closes() {
    let mut d = Dispatcher::new(0);
    assert!(d.step(DispatchEvent::Connected) == DispatchAction::Close);
    assert!(d.step(DispatchEvent::Closed(None)) == DispatchAction::Finish);
    let batch = d.finish().map(|r| map_rows_to_api_responses_vec(Vec::new(), r, UNSUPPORTED_POLICY));
    assert_eq!(response_document(&batch), "[]");
}

#[test]
fn failed_close_keeps_results() {
    let mut d = Dispatcher::new(1);
    d.step(DispatchEvent::Connected);
    let rs = ResultSet { columns: vec![col("n", SqlType::Int2)], rows: vec![vec![RawCell::Int2(-7)]] };
    assert!(d.step(DispatchEvent::QueryDone(Ok(rs))) == DispatchAction::Close);
    assert!(d.step(DispatchEvent::Closed(Some("connection reset".to_string()))) == DispatchAction::Finish);
    assert!(matches!(&d.close_failure, Some(Error::DbConnection(m)) if m == "connection reset"));
    let batch = d.finish().map(|r| map_rows_to_api_responses_vec(vec![req("q", None, true)], r, UNSUPPORTED_POLICY));
    assert_eq!(response_document(&batch), r#"[{"requesters_id":null,"data":[{"n":-7}]}]"#);
}

#[test]
fn event_out_of_phase_changes_nothing() {
    let mut d = Dispatcher::new(1);
    assert!(d.step(DispatchEvent::Closed(None)) == DispatchAction::Connect);
    assert!(d.step(DispatchEvent::Connected) == DispatchAction::RunQuery(0));
    assert!(d.step(DispatchEvent::Connected) == DispatchAction::RunQuery(0));
}

#[test]
fn responses_follow_the_shorter_list() {
    let rs = ResultSet { columns: vec![], rows: vec![] };
    let out = map_rows_to_api_responses_vec(vec![req("a", None, true), req("b", None, true)], vec![Ok(rs)], UNSUPPORTED_POLICY);
    assert_eq!(out.len(), 1);
}

#[test]
fn connection_string_with_and_without_password() {
    let mut l = Login {
        host: "localhost".to_string(),
        db_name: "el_dabaa".to_string(),
        user: "postgres".to_string(),
        password: String::new(),
    };
    assert_eq!(l.connection_string(), "host=localhost dbname=el_dabaa user=postgres");
    l.password = "pw".to_string();
    assert_eq!(l.connection_string(), "host=localhost dbname=el_dabaa user=postgres password=pw");
}

#[test]
fn reject_policy_reports_unsupported_type() {
    let rs = ResultSet {
        columns: vec![col("p", SqlType::Other("point".to_string()))],
        rows: vec![vec![RawCell::NoText]],
    };
    let out = map_rows_to_api_responses_vec(vec![req("q", None, true)], vec![Ok(rs)], UnsupportedPolicy::Reject);
    let doc = response_document(&Ok(out));
    assert_eq!(
        doc,
        r#"[{"requesters_id":null,"data":{"Err":{"code":"0431","descr":"Тип столбца базы данных 'point' не поддерживается","tech_descr":null}}}]"#
    );
}
