use vstd::prelude::*;
use crate::convert::{UnsupportedPolicy, opt_view};
use crate::error::{Error, ErrorModel, code_of, descr_of, tech_descr_of};
use crate::json::{JsonModel, join, lemma_join_step, push_quoted, push_separator, quoted};
use crate::ordered::{ColumnArrays, OrderedJson, columns_text, object_text};
use crate::pack::{
    ResultSet, ResultSetModel, columns_of, convert_rows, object_of, objects_view,
    pack_tbl_into_arr_in_obj, pack_tbl_into_obj_in_arr,
};

verus! {

/// One request of a batch: the query, the caller's optional correlation
/// identifier, and the shape asked for (`true`: an array of row objects;
/// `false`: an object of column arrays).
pub struct ApiRequest {
    pub sql_query: String,
    pub requesters_id: Option<String>,
    pub is_obj_in_arr_fmt: bool,
}

/// Mathematical model of an [`ApiRequest`].
pub struct RequestModel {
    pub sql_query: Seq<char>,
    pub requesters_id: Option<Seq<char>>,
    pub is_obj_in_arr_fmt: bool,
}

impl View for ApiRequest {
    type V = RequestModel;

    open spec fn view(&self) -> RequestModel {
        RequestModel {
            sql_query: self.sql_query@,
            requesters_id: opt_view(self.requesters_id),
            is_obj_in_arr_fmt: self.is_obj_in_arr_fmt,
        }
    }
}

/// A converted result set, in the shape that its request asked for.
pub enum SqlResponseTable {
    ArrInObj(ColumnArrays),
    ObjInArr(Vec<OrderedJson>),
}

/// Mathematical model of a [`SqlResponseTable`].
pub enum TableModel {
    Columns(Seq<(Seq<char>, Seq<JsonModel>)>),
    Rows(Seq<Seq<(Seq<char>, JsonModel)>>),
}

impl View for SqlResponseTable {
    type V = TableModel;

    open spec fn view(&self) -> TableModel {
        match self {
            SqlResponseTable::ArrInObj(c) => TableModel::Columns(c@),
            SqlResponseTable::ObjInArr(os) => TableModel::Rows(objects_view(os@)),
        }
    }
}

/// The response to one request: its correlation identifier, echoed, and its
/// own result.
pub struct ApiResponse {
    pub requesters_id: Option<String>,
    pub data: Result<SqlResponseTable, Error>,
}

/// Mathematical model of an [`ApiResponse`].
pub struct ResponseModel {
    pub requesters_id: Option<Seq<char>>,
    pub data: Result<TableModel, ErrorModel>,
}

impl View for ApiResponse {
    type V = ResponseModel;

    open spec fn view(&self) -> ResponseModel {
        ResponseModel {
            requesters_id: opt_view(self.requesters_id),
            data: match self.data {
                Ok(t) => Ok(t@),
                Err(e) => Err(e@),
            },
        }
    }
}

pub open spec fn responses_view(rs: Seq<ApiResponse>) -> Seq<ResponseModel> {
    rs.map_values(|r: ApiResponse| r@)
}

/// What a request's result becomes: its error, or its rows packed in the
/// shape that the request asked for.
pub open spec fn table_spec(req: RequestModel, rs: ResultSetModel, p: UnsupportedPolicy) -> Result<TableModel, ErrorModel> {
    match convert_rows(rs.rows, rs.types, p) {
        Err(e) => Err(e),
        Ok(t) => if req.is_obj_in_arr_fmt {
            Ok(TableModel::Rows(t.map_values(|vals: Seq<JsonModel>| object_of(rs.names, vals))))
        } else {
            Ok(TableModel::Columns(columns_of(rs.names, t)))
        },
    }
}

pub open spec fn response_spec(req: RequestModel, data: Result<ResultSetModel, ErrorModel>, p: UnsupportedPolicy) -> ResponseModel {
    ResponseModel {
        requesters_id: req.requesters_id,
        data: match data {
            Err(e) => Err(e),
            Ok(rs) => table_spec(req, rs, p),
        },
    }
}

pub open spec fn data_view(d: Result<ResultSet, Error>) -> Result<ResultSetModel, ErrorModel> {
    match d {
        Ok(rs) => Ok(rs@),
        Err(e) => Err(e@),
    }
}

pub open spec fn data_wf(d: Result<ResultSet, Error>) -> bool {
    match d {
        Ok(rs) => rs.wf(),
        Err(_) => true,
    }
}

/// Builds the response to one request from its query's result.
pub fn respond(req: ApiRequest, data: Result<ResultSet, Error>, policy: UnsupportedPolicy) -> (r: ApiResponse)
    requires
        data_wf(data),
    ensures
        r@ == response_spec(req@, data_view(data), policy),
{
    let d = match data {
        Err(e) => Err(e),
        Ok(rs) => {
            if req.is_obj_in_arr_fmt {
                match pack_tbl_into_obj_in_arr(&rs, policy) {
                    Ok(v) => Ok(SqlResponseTable::ObjInArr(v)),
                    Err(e) => Err(e),
                }
            } else {
                match pack_tbl_into_arr_in_obj(&rs, policy) {
                    Ok(c) => Ok(SqlResponseTable::ArrInObj(c)),
                    Err(e) => Err(e),
                }
            }
        },
    };
    ApiResponse { requesters_id: req.requesters_id, data: d }
}

/// Pairs each request with its query's result, in request order, and builds
/// the responses. Where one list is longer, its extra items are left out.
pub fn map_rows_to_api_responses_vec(
    excel_requests: Vec<ApiRequest>,
    data_vec: Vec<Result<ResultSet, Error>>,
    policy: UnsupportedPolicy,
) -> (r: Vec<ApiResponse>)
    requires
        forall|i: int| 0 <= i < data_vec@.len() ==> data_wf(#[trigger] data_vec@[i]),
    ensures
        r@.len() == if excel_requests@.len() <= data_vec@.len() {
            excel_requests@.len()
        } else {
            data_vec@.len()
        },
        forall|i: int|
            0 <= i < r@.len() ==> #[trigger] r@[i]@ == response_spec(
                excel_requests@[i]@,
                data_view(data_vec@[i]),
                policy,
            ),
{
    let ghost reqs = excel_requests@;
    let ghost datas = data_vec@;
    let n = if excel_requests.len() <= data_vec.len() {
        excel_requests.len()
    } else {
        data_vec.len()
    };
    let mut res: Vec<ApiResponse> = Vec::new();
    let mut requests = excel_requests;
    let mut data = data_vec;
    requests.truncate(n);
    data.truncate(n);
    let mut k: usize = n;
    // Taken from the back so that each item moves out without copying.
    let mut rev: Vec<ApiResponse> = Vec::new();
    while k > 0
        invariant
            k <= n,
            n <= reqs.len(),
            n <= datas.len(),
            requests@ == reqs.take(k as int),
            data@ == datas.take(k as int),
            forall|i: int| 0 <= i < datas.len() ==> data_wf(#[trigger] datas[i]),
            rev@.len() == n - k,
            forall|i: int|
                0 <= i < rev@.len() ==> #[trigger] rev@[i]@ == response_spec(
                    reqs[n - 1 - i]@,
                    data_view(datas[n - 1 - i]),
                    policy,
                ),
        decreases k,
    {
        let req = requests.pop().unwrap();
        let d = data.pop().unwrap();
        assert(requests@ =~= reqs.take(k - 1));
        assert(data@ =~= datas.take(k - 1));
        rev.push(respond(req, d, policy));
        k = k - 1;
    }
    while rev.len() > 0
        invariant
            rev@.len() + res@.len() == n,
            forall|i: int|
                0 <= i < rev@.len() ==> #[trigger] rev@[i]@ == response_spec(
                    reqs[n - 1 - i]@,
                    data_view(datas[n - 1 - i]),
                    policy,
                ),
            forall|i: int|
                0 <= i < res@.len() ==> #[trigger] res@[i]@ == response_spec(
                    reqs[i]@,
                    data_view(datas[i]),
                    policy,
                ),
        decreases rev@.len(),
    {
        let r = rev.pop().unwrap();
        res.push(r);
    }
    res
}

pub open spec fn opt_quoted(o: Option<Seq<char>>) -> Seq<char> {
    match o {
        Some(t) => quoted(t),
        None => "null"@,
    }
}

/// The wire object of an error.
pub open spec fn error_text(e: ErrorModel) -> Seq<char> {
    "{\"code\":"@ + quoted(code_of(e)) + ",\"descr\":"@ + quoted(descr_of(e)) + ",\"tech_descr\":"@
        + opt_quoted(tech_descr_of(e)) + seq!['}']
}

/// An error as it stands in place of a result.
pub open spec fn err_text(e: ErrorModel) -> Seq<char> {
    "{\"Err\":"@ + error_text(e) + seq!['}']
}

pub open spec fn table_text(t: TableModel) -> Seq<char> {
    match t {
        TableModel::Columns(c) => columns_text(c),
        TableModel::Rows(os) => seq!['['] + join(
            os.map_values(|o: Seq<(Seq<char>, JsonModel)>| object_text(o)),
        ) + seq![']'],
    }
}

pub open spec fn data_text(d: Result<TableModel, ErrorModel>) -> Seq<char> {
    match d {
        Ok(t) => table_text(t),
        Err(e) => err_text(e),
    }
}

pub open spec fn response_text(r: ResponseModel) -> Seq<char> {
    "{\"requesters_id\":"@ + opt_quoted(r.requesters_id) + ",\"data\":"@ + data_text(r.data) + seq!['}']
}

/// The whole wire document: the array of responses, or a single error where
/// the batch as a whole failed.
pub open spec fn document_text(d: Result<Seq<ResponseModel>, ErrorModel>) -> Seq<char> {
    match d {
        Ok(rs) => seq!['['] + join(rs.map_values(|r: ResponseModel| response_text(r))) + seq![']'],
        Err(e) => err_text(e),
    }
}

fn push_opt_quoted(out: &mut String, o: &Option<String>)
    ensures
        final(out)@ == old(out)@ + opt_quoted(opt_view(*o)),
{
    match o {
        Some(t) => push_quoted(out, t.as_str()),
        None => out.append("null"),
    }
}

/// Appends the wire object of an error to `out`.
pub fn push_error(out: &mut String, e: &Error)
    ensures
        final(out)@ == old(out)@ + error_text(e@),
{
    let ghost start = out@;
    out.append("{\"code\":");
    push_quoted(out, e.code());
    out.append(",\"descr\":");
    let d = e.descr();
    push_quoted(out, d.as_str());
    out.append(",\"tech_descr\":");
    match e.tech_descr() {
        Some(t) => push_quoted(out, t),
        None => out.append("null"),
    }
    out.push('}');
    assert(out@ =~= start + error_text(e@));
}

/// Appends an error wrapped as `{"Err":...}` to `out`.
pub fn push_err(out: &mut String, e: &Error)
    ensures
        final(out)@ == old(out)@ + err_text(e@),
{
    let ghost start = out@;
    out.append("{\"Err\":");
    push_error(out, e);
    out.push('}');
    assert(out@ =~= start + err_text(e@));
}

fn push_table(out: &mut String, t: &SqlResponseTable)
    ensures
        final(out)@ == old(out)@ + table_text(t@),
{
    match t {
        SqlResponseTable::ArrInObj(c) => c.write(out),
        SqlResponseTable::ObjInArr(os) => {
            let ghost start = out@;
            let ghost parts = objects_view(os@).map_values(
                |o: Seq<(Seq<char>, JsonModel)>| object_text(o),
            );
            out.push('[');
            let mut i: usize = 0;
            while i < os.len()
                invariant
                    i <= os@.len(),
                    parts == objects_view(os@).map_values(
                        |o: Seq<(Seq<char>, JsonModel)>| object_text(o),
                    ),
                    out@ == start + seq!['['] + join(parts.take(i as int)),
                decreases os@.len() - i,
            {
                proof {
                    lemma_join_step(parts, i as int);
                }
                push_separator(out, i);
                os[i].write(out);
                i = i + 1;
            }
            assert(parts.take(os@.len() as int) =~= parts);
            out.push(']');
            assert(out@ =~= start + table_text(t@));
        },
    }
}

/// Appends the wire object of one response to `out`.
pub fn push_response(out: &mut String, r: &ApiResponse)
    ensures
        final(out)@ == old(out)@ + response_text(r@),
{
    let ghost start = out@;
    out.append("{\"requesters_id\":");
    push_opt_quoted(out, &r.requesters_id);
    out.append(",\"data\":");
    match &r.data {
        Ok(t) => push_table(out, t),
        Err(e) => push_err(out, e),
    }
    out.push('}');
    assert(out@ =~= start + response_text(r@));
}

pub open spec fn batch_view(b: Result<Vec<ApiResponse>, Error>) -> Result<Seq<ResponseModel>, ErrorModel> {
    match b {
        Ok(rs) => Ok(responses_view(rs@)),
        Err(e) => Err(e@),
    }
}

/// The wire document of a batch's outcome.
pub fn response_document(b: &Result<Vec<ApiResponse>, Error>) -> (r: String)
    ensures
        r@ == document_text(batch_view(*b)),
{
    let mut out = String::new();
    match b {
        Err(e) => {
            push_err(&mut out, e);
            assert(out@ =~= document_text(batch_view(*b)));
        },
        Ok(rs) => {
            let ghost parts = responses_view(rs@).map_values(|r: ResponseModel| response_text(r));
            out.push('[');
            let mut i: usize = 0;
            while i < rs.len()
                invariant
                    i <= rs@.len(),
                    parts == responses_view(rs@).map_values(|r: ResponseModel| response_text(r)),
                    out@ == seq!['['] + join(parts.take(i as int)),
                decreases rs@.len() - i,
            {
                proof {
                    lemma_join_step(parts, i as int);
                }
                push_separator(&mut out, i);
                push_response(&mut out, &rs[i]);
                i = i + 1;
            }
            assert(parts.take(rs@.len() as int) =~= parts);
            out.push(']');
            assert(out@ =~= document_text(batch_view(*b)));
        },
    }
    out
}

/// A failed query is confined to its own request: where query `k` of a batch
/// failed and every other query's rows convert, there is still one response
/// per request, the `k`-th carries the failure and every other one carries
/// data.
pub proof fn lemma_failure_isolated(
    reqs: Seq<RequestModel>,
    results: Seq<Result<ResultSetModel, ErrorModel>>,
    k: int,
    p: UnsupportedPolicy,
)
    requires
        reqs.len() == results.len(),
        0 <= k < results.len(),
        results[k] is Err,
        forall|i: int|
            0 <= i < results.len() && i != k ==> (#[trigger] results[i]) is Ok
                && convert_rows(results[i]->Ok_0.rows, results[i]->Ok_0.types, p) is Ok,
    ensures
        ({
            let out = Seq::new(reqs.len(), |i: int| response_spec(reqs[i], results[i], p));
            &&& out.len() == reqs.len()
            &&& out[k].data == Err::<TableModel, ErrorModel>(results[k]->Err_0)
            &&& out[k].requesters_id == reqs[k].requesters_id
            &&& forall|i: int| 0 <= i < out.len() && i != k ==> (#[trigger] out[i]).data is Ok
        }),
{
    let out = Seq::new(reqs.len(), |i: int| response_spec(reqs[i], results[i], p));
    assert forall|i: int| 0 <= i < out.len() && i != k implies (#[trigger] out[i]).data is Ok by {
        assert(results[i] is Ok);
    }
}

} // verus!
