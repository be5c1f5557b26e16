use vstd::prelude::*;
use crate::convert::{
    CellModel, RawCell, SqlType, TypeModel, UnsupportedPolicy, convert_spec,
    convert_to_serde_json_type,
};
use crate::error::{Error, ErrorModel};
use crate::json::{JsonModel, JsonValue};
use crate::ordered::{ColumnArrays, OrderedJson, key_index, lemma_key_index_bounds, push_under, upsert};

verus! {

/// A column of a result set: its name and declared type.
pub struct Column {
    pub name: String,
    pub column_type: SqlType,
}

/// The rows that one query returned, each with one cell per column, in the
/// store's column order.
pub struct ResultSet {
    pub columns: Vec<Column>,
    pub rows: Vec<Vec<RawCell>>,
}

/// Mathematical model of a [`ResultSet`]: column names, column types, rows.
pub struct ResultSetModel {
    pub names: Seq<Seq<char>>,
    pub types: Seq<TypeModel>,
    pub rows: Seq<Seq<CellModel>>,
}

pub open spec fn cells_model(row: Vec<RawCell>) -> Seq<CellModel> {
    row@.map_values(|c: RawCell| c@)
}

impl View for ResultSet {
    type V = ResultSetModel;

    open spec fn view(&self) -> ResultSetModel {
        ResultSetModel {
            names: self.columns@.map_values(|c: Column| c.name@),
            types: self.columns@.map_values(|c: Column| c.column_type@),
            rows: self.rows@.map_values(|r: Vec<RawCell>| cells_model(r)),
        }
    }
}

impl ResultSet {
    /// Every row has one cell per column.
    pub open spec fn wf(&self) -> bool {
        forall|i: int| 0 <= i < self.rows@.len() ==> (#[trigger] self.rows@[i])@.len() == self.columns@.len()
    }
}

/// The cells of one row converted in column order; the first failure wins.
pub open spec fn convert_cells(cells: Seq<CellModel>, types: Seq<TypeModel>, p: UnsupportedPolicy) -> Result<Seq<JsonModel>, ErrorModel>
    decreases cells.len(),
{
    if cells.len() == 0 {
        Ok(Seq::empty())
    } else {
        match convert_cells(cells.drop_last(), types, p) {
            Err(e) => Err(e),
            Ok(vs) => match convert_spec(cells.last(), types[cells.len() - 1], p) {
                Err(e) => Err(e),
                Ok(v) => Ok(vs.push(v)),
            },
        }
    }
}

/// All rows converted in row order; the first failure wins.
pub open spec fn convert_rows(rows: Seq<Seq<CellModel>>, types: Seq<TypeModel>, p: UnsupportedPolicy) -> Result<Seq<Seq<JsonModel>>, ErrorModel>
    decreases rows.len(),
{
    if rows.len() == 0 {
        Ok(Seq::empty())
    } else {
        match convert_rows(rows.drop_last(), types, p) {
            Err(e) => Err(e),
            Ok(t) => match convert_cells(rows.last(), types, p) {
                Err(e) => Err(e),
                Ok(vs) => Ok(t.push(vs)),
            },
        }
    }
}

/// The object of one row: each column's value inserted under its name, in
/// column order.
pub open spec fn object_of(names: Seq<Seq<char>>, vals: Seq<JsonModel>) -> Seq<(Seq<char>, JsonModel)>
    decreases vals.len(),
{
    if vals.len() == 0 {
        Seq::empty()
    } else {
        upsert(object_of(names, vals.drop_last()), names[vals.len() - 1], vals.last())
    }
}

/// One row's values appended, column by column, to the arrays of `e`.
pub open spec fn pushed_row(e: Seq<(Seq<char>, Seq<JsonModel>)>, names: Seq<Seq<char>>, vals: Seq<JsonModel>) -> Seq<(Seq<char>, Seq<JsonModel>)>
    decreases vals.len(),
{
    if vals.len() == 0 {
        e
    } else {
        push_under(pushed_row(e, names, vals.drop_last()), names[vals.len() - 1], vals.last())
    }
}

/// The object of column arrays built from a converted table, row by row.
pub open spec fn columns_of(names: Seq<Seq<char>>, table: Seq<Seq<JsonModel>>) -> Seq<(Seq<char>, Seq<JsonModel>)>
    decreases table.len(),
{
    if table.len() == 0 {
        Seq::empty()
    } else {
        pushed_row(columns_of(names, table.drop_last()), names, table.last())
    }
}

proof fn lemma_convert_cells_len(cells: Seq<CellModel>, types: Seq<TypeModel>, p: UnsupportedPolicy)
    ensures
        convert_cells(cells, types, p) is Ok ==> convert_cells(cells, types, p)->Ok_0.len() == cells.len(),
    decreases cells.len(),
{
    if cells.len() > 0 {
        lemma_convert_cells_len(cells.drop_last(), types, p);
    }
}

proof fn lemma_cells_err_stays(cells: Seq<CellModel>, types: Seq<TypeModel>, p: UnsupportedPolicy, j: int, e: ErrorModel)
    requires
        0 <= j <= cells.len(),
        convert_cells(cells.take(j), types, p) == Err::<Seq<JsonModel>, ErrorModel>(e),
    ensures
        convert_cells(cells, types, p) == Err::<Seq<JsonModel>, ErrorModel>(e),
    decreases cells.len() - j,
{
    if j < cells.len() {
        assert(cells.take(j + 1).drop_last() =~= cells.take(j));
        lemma_cells_err_stays(cells, types, p, j + 1, e);
    } else {
        assert(cells.take(j) =~= cells);
    }
}

proof fn lemma_rows_err_stays(rows: Seq<Seq<CellModel>>, types: Seq<TypeModel>, p: UnsupportedPolicy, i: int, e: ErrorModel)
    requires
        0 <= i <= rows.len(),
        convert_rows(rows.take(i), types, p) == Err::<Seq<Seq<JsonModel>>, ErrorModel>(e),
    ensures
        convert_rows(rows, types, p) == Err::<Seq<Seq<JsonModel>>, ErrorModel>(e),
    decreases rows.len() - i,
{
    if i < rows.len() {
        assert(rows.take(i + 1).drop_last() =~= rows.take(i));
        lemma_rows_err_stays(rows, types, p, i + 1, e);
    } else {
        assert(rows.take(i) =~= rows);
    }
}

pub open spec fn objects_view(v: Seq<OrderedJson>) -> Seq<Seq<(Seq<char>, JsonModel)>> {
    v.map_values(|o: OrderedJson| o@)
}

/// Packs a result set as an array of objects, one per row, each keyed by the
/// column names in column order.
pub fn pack_tbl_into_obj_in_arr(rs: &ResultSet, policy: UnsupportedPolicy) -> (r: Result<Vec<OrderedJson>, Error>)
    requires
        rs.wf(),
    ensures
        match convert_rows(rs@.rows, rs@.types, policy) {
            Ok(t) => r is Ok && objects_view(r->Ok_0@) == t.map_values(
                |vals: Seq<JsonModel>| object_of(rs@.names, vals),
            ),
            Err(e) => r is Err && r->Err_0@ == e,
        },
{
    let ghost m = rs@;
    let mut out: Vec<OrderedJson> = Vec::new();
    let mut i: usize = 0;
    while i < rs.rows.len()
        invariant
            rs.wf(),
            m == rs@,
            i <= rs.rows@.len(),
            convert_rows(m.rows.take(i as int), m.types, policy) is Ok,
            objects_view(out@) == convert_rows(m.rows.take(i as int), m.types, policy)->Ok_0.map_values(
                |vals: Seq<JsonModel>| object_of(m.names, vals),
            ),
        decreases rs.rows@.len() - i,
    {
        let row = &rs.rows[i];
        let ghost cells = m.rows[i as int];
        assert(cells == cells_model(*row));
        let mut obj = OrderedJson::new();
        let mut j: usize = 0;
        while j < row.len()
            invariant
                rs.wf(),
                m == rs@,
                i < rs.rows@.len(),
                row == rs.rows@[i as int],
                cells == cells_model(*row),
                row@.len() == rs.columns@.len(),
                j <= row@.len(),
                convert_rows(m.rows.take(i as int), m.types, policy) is Ok,
                objects_view(out@) == convert_rows(m.rows.take(i as int), m.types, policy)->Ok_0.map_values(
                    |vals: Seq<JsonModel>| object_of(m.names, vals),
                ),
                convert_cells(cells.take(j as int), m.types, policy) is Ok,
                obj@ == object_of(m.names, convert_cells(cells.take(j as int), m.types, policy)->Ok_0),
            decreases row@.len() - j,
        {
            let col = &rs.columns[j];
            assert(cells.take(j + 1).drop_last() =~= cells.take(j as int));
            assert(cells.take(j + 1).last() == row@[j as int]@);
            assert(m.types[j as int] == col.column_type@);
            assert(m.names[j as int] == col.name@);
            match convert_to_serde_json_type(&row[j], &col.column_type, policy) {
                Ok(v) => {
                    let ghost prev = convert_cells(cells.take(j as int), m.types, policy)->Ok_0;
                    obj.insert(col.name.clone(), v);
                    proof {
                        lemma_convert_cells_len(cells.take(j as int), m.types, policy);
                        let vs = convert_cells(cells.take(j + 1), m.types, policy)->Ok_0;
                        assert(vs == prev.push(v@));
                        assert(vs.drop_last() =~= prev);
                    }
                },
                Err(e) => {
                    proof {
                        lemma_cells_err_stays(cells, m.types, policy, j + 1, e@);
                        assert(m.rows.take(i + 1).last() == cells);
                        assert(m.rows.take(i + 1).drop_last() =~= m.rows.take(i as int));
                        assert(convert_cells(cells, m.types, policy) == Err::<Seq<JsonModel>, ErrorModel>(e@));
                        assert(convert_rows(m.rows.take(i + 1), m.types, policy) == Err::<Seq<Seq<JsonModel>>, ErrorModel>(e@));
                        assert(cells.take(cells.len() as int) =~= cells);
                        assert(m.rows.take(i + 1).drop_last() =~= m.rows.take(i as int));
                        lemma_rows_err_stays(m.rows, m.types, policy, i + 1, e@);
                    }
                    return Err(e);
                },
            }
            j = j + 1;
        }
        proof {
            assert(cells.take(j as int) =~= cells);
            assert(m.rows.take(i + 1).drop_last() =~= m.rows.take(i as int));
            assert(m.rows.take(i + 1).last() == cells);
        }
        let ghost before = out@;
        let ghost objm = obj@;
        out.push(obj);
        i = i + 1;
        proof {
            let t = convert_rows(m.rows.take(i - 1), m.types, policy)->Ok_0;
            let vs = convert_cells(cells, m.types, policy)->Ok_0;
            assert(convert_rows(m.rows.take(i as int), m.types, policy)->Ok_0 == t.push(vs));
            assert(objm == object_of(m.names, vs));
            assert(objects_view(out@) =~= objects_view(before).push(objm));
            assert(objects_view(out@) =~= convert_rows(m.rows.take(i as int), m.types, policy)->Ok_0.map_values(
                |vals: Seq<JsonModel>| object_of(m.names, vals),
            ));
        }
    }
    assert(m.rows.take(i as int) =~= m.rows);
    Ok(out)
}

/// Packs a result set as one object of arrays, one array per column under the
/// column's name, each holding that column's values in row order.
pub fn pack_tbl_into_arr_in_obj(rs: &ResultSet, policy: UnsupportedPolicy) -> (r: Result<ColumnArrays, Error>)
    requires
        rs.wf(),
    ensures
        match convert_rows(rs@.rows, rs@.types, policy) {
            Ok(t) => r is Ok && r->Ok_0@ == columns_of(rs@.names, t),
            Err(e) => r is Err && r->Err_0@ == e,
        },
{
    let ghost m = rs@;
    let mut cols = ColumnArrays::new();
    let mut i: usize = 0;
    while i < rs.rows.len()
        invariant
            rs.wf(),
            m == rs@,
            i <= rs.rows@.len(),
            convert_rows(m.rows.take(i as int), m.types, policy) is Ok,
            cols@ == columns_of(m.names, convert_rows(m.rows.take(i as int), m.types, policy)->Ok_0),
        decreases rs.rows@.len() - i,
    {
        let row = &rs.rows[i];
        let ghost cells = m.rows[i as int];
        let ghost before = cols@;
        assert(cells == cells_model(*row));
        let mut j: usize = 0;
        while j < row.len()
            invariant
                rs.wf(),
                m == rs@,
                i < rs.rows@.len(),
                row == rs.rows@[i as int],
                cells == cells_model(*row),
                row@.len() == rs.columns@.len(),
                j <= row@.len(),
                convert_rows(m.rows.take(i as int), m.types, policy) is Ok,
                before == columns_of(m.names, convert_rows(m.rows.take(i as int), m.types, policy)->Ok_0),
                convert_cells(cells.take(j as int), m.types, policy) is Ok,
                cols@ == pushed_row(before, m.names, convert_cells(cells.take(j as int), m.types, policy)->Ok_0),
            decreases row@.len() - j,
        {
            let col = &rs.columns[j];
            assert(cells.take(j + 1).drop_last() =~= cells.take(j as int));
            assert(cells.take(j + 1).last() == row@[j as int]@);
            assert(m.types[j as int] == col.column_type@);
            assert(m.names[j as int] == col.name@);
            match convert_to_serde_json_type(&row[j], &col.column_type, policy) {
                Ok(v) => {
                    let ghost prev = convert_cells(cells.take(j as int), m.types, policy)->Ok_0;
                    cols.push(col.name.clone(), v);
                    proof {
                        lemma_convert_cells_len(cells.take(j as int), m.types, policy);
                        let vs = convert_cells(cells.take(j + 1), m.types, policy)->Ok_0;
                        assert(vs == prev.push(v@));
                        assert(vs.drop_last() =~= prev);
                    }
                },
                Err(e) => {
                    proof {
                        lemma_cells_err_stays(cells, m.types, policy, j + 1, e@);
                        assert(m.rows.take(i + 1).last() == cells);
                        assert(m.rows.take(i + 1).drop_last() =~= m.rows.take(i as int));
                        assert(convert_cells(cells, m.types, policy) == Err::<Seq<JsonModel>, ErrorModel>(e@));
                        assert(convert_rows(m.rows.take(i + 1), m.types, policy) == Err::<Seq<Seq<JsonModel>>, ErrorModel>(e@));
                        lemma_rows_err_stays(m.rows, m.types, policy, i + 1, e@);
                    }
                    return Err(e);
                },
            }
            j = j + 1;
        }
        proof {
            assert(cells.take(j as int) =~= cells);
            assert(m.rows.take(i + 1).drop_last() =~= m.rows.take(i as int));
            assert(m.rows.take(i + 1).last() == cells);
            let t = convert_rows(m.rows.take(i as int), m.types, policy)->Ok_0;
            let vs = convert_cells(cells, m.types, policy)->Ok_0;
            assert(convert_rows(m.rows.take(i + 1), m.types, policy)->Ok_0 == t.push(vs));
            assert(t.push(vs).drop_last() =~= t);
        }
        i = i + 1;
    }
    assert(m.rows.take(i as int) =~= m.rows);
    Ok(cols)
}

/// No two columns share a name.
pub open spec fn distinct_names(names: Seq<Seq<char>>) -> bool {
    forall|i: int, j: int| 0 <= i < j < names.len() ==> names[i] != names[j]
}

proof fn lemma_key_index_of_distinct<V>(e: Seq<(Seq<char>, V)>, names: Seq<Seq<char>>, j: int)
    requires
        distinct_names(names),
        e.len() <= names.len(),
        forall|k: int| 0 <= k < e.len() ==> #[trigger] e[k].0 == names[k],
        0 <= j < e.len(),
    ensures
        key_index(e, names[j]) == j,
{
    lemma_key_index_bounds(e, names[j]);
    assert(e[j].0 == names[j]);
    let ki = key_index(e, names[j]);
    assert(ki >= 0);
    assert(e[ki].0 == names[ki]);
}

proof fn lemma_key_index_fresh<V>(e: Seq<(Seq<char>, V)>, names: Seq<Seq<char>>)
    requires
        distinct_names(names),
        e.len() < names.len(),
        forall|k: int| 0 <= k < e.len() ==> #[trigger] e[k].0 == names[k],
    ensures
        key_index(e, names[e.len() as int]) < 0,
{
    lemma_key_index_bounds(e, names[e.len() as int]);
    let ki = key_index(e, names[e.len() as int]);
    if ki >= 0 {
        assert(e[ki].0 == names[ki]);
    }
}

/// With distinct column names, a row's object holds each column's value under
/// the column's name, in column order.
pub proof fn lemma_row_keys_in_column_order(names: Seq<Seq<char>>, vals: Seq<JsonModel>)
    requires
        distinct_names(names),
        vals.len() <= names.len(),
    ensures
        object_of(names, vals) == Seq::new(vals.len(), |j: int| (names[j], vals[j])),
    decreases vals.len(),
{
    if vals.len() > 0 {
        let m = vals.len() - 1;
        lemma_row_keys_in_column_order(names, vals.drop_last());
        let prev = object_of(names, vals.drop_last());
        lemma_key_index_fresh(prev, names);
        assert(object_of(names, vals) =~= Seq::new(vals.len(), |j: int| (names[j], vals[j])));
    } else {
        assert(object_of(names, vals) =~= Seq::new(vals.len(), |j: int| (names[j], vals[j])));
    }
}

proof fn lemma_pushed_row_fresh(names: Seq<Seq<char>>, vals: Seq<JsonModel>)
    requires
        distinct_names(names),
        vals.len() <= names.len(),
    ensures
        pushed_row(Seq::empty(), names, vals) == Seq::new(vals.len(), |j: int| (names[j], seq![vals[j]])),
    decreases vals.len(),
{
    if vals.len() > 0 {
        lemma_pushed_row_fresh(names, vals.drop_last());
        let prev = pushed_row(Seq::empty(), names, vals.drop_last());
        lemma_key_index_fresh(prev, names);
    }
    assert(pushed_row(Seq::empty(), names, vals) =~= Seq::new(vals.len(), |j: int| (names[j], seq![vals[j]])));
}

proof fn lemma_pushed_row_existing(e: Seq<(Seq<char>, Seq<JsonModel>)>, names: Seq<Seq<char>>, vals: Seq<JsonModel>)
    requires
        distinct_names(names),
        e.len() == names.len(),
        vals.len() <= names.len(),
        forall|k: int| 0 <= k < e.len() ==> #[trigger] e[k].0 == names[k],
    ensures
        pushed_row(e, names, vals) == Seq::new(
            e.len(),
            |j: int| if j < vals.len() { (names[j], e[j].1.push(vals[j])) } else { e[j] },
        ),
    decreases vals.len(),
{
    if vals.len() > 0 {
        lemma_pushed_row_existing(e, names, vals.drop_last());
        let prev = pushed_row(e, names, vals.drop_last());
        assert forall|k: int| 0 <= k < prev.len() implies #[trigger] prev[k].0 == names[k] by {}
        lemma_key_index_of_distinct(prev, names, vals.len() - 1);
    }
    assert(pushed_row(e, names, vals) =~= Seq::new(
        e.len(),
        |j: int| if j < vals.len() { (names[j], e[j].1.push(vals[j])) } else { e[j] },
    ));
}

/// Column `j` of a table: its values in row order.
pub open spec fn column_values(table: Seq<Seq<JsonModel>>, j: int) -> Seq<JsonModel> {
    Seq::new(table.len(), |i: int| table[i][j])
}

/// With distinct column names, the object of arrays holds, for each column in
/// column order, the column's values in row order; it is empty where there are
/// no rows.
pub proof fn lemma_columns_of(names: Seq<Seq<char>>, table: Seq<Seq<JsonModel>>)
    requires
        distinct_names(names),
        forall|i: int| 0 <= i < table.len() ==> (#[trigger] table[i]).len() == names.len(),
    ensures
        columns_of(names, table) == if table.len() == 0 {
            Seq::empty()
        } else {
            Seq::new(names.len(), |j: int| (names[j], column_values(table, j)))
        },
    decreases table.len(),
{
    if table.len() == 1 {
        assert(table.drop_last() =~= Seq::<Seq<JsonModel>>::empty());
        lemma_pushed_row_fresh(names, table[0]);
        assert(columns_of(names, table.drop_last()) == Seq::<(Seq<char>, Seq<JsonModel>)>::empty());
        assert(table.last() == table[0]);
        assert(columns_of(names, table) == pushed_row(Seq::empty(), names, table[0]));
        assert forall|j: int| 0 <= j < names.len() implies column_values(table, j) =~= seq![table[0][j]] by {}
        assert(columns_of(names, table) =~= Seq::new(names.len(), |j: int| (names[j], column_values(table, j))));
    } else if table.len() > 1 {
        let prev_t = table.drop_last();
        lemma_columns_of(names, prev_t);
        let e = columns_of(names, prev_t);
        assert forall|k: int| 0 <= k < e.len() implies #[trigger] e[k].0 == names[k] by {}
        lemma_pushed_row_existing(e, names, table.last());
        assert forall|j: int| 0 <= j < names.len() implies column_values(prev_t, j).push(table.last()[j]) =~= column_values(table, j) by {}
        assert(columns_of(names, table) =~= Seq::new(names.len(), |j: int| (names[j], column_values(table, j))));
    }
}

proof fn lemma_convert_rows_shape(rows: Seq<Seq<CellModel>>, types: Seq<TypeModel>, p: UnsupportedPolicy)
    requires
        convert_rows(rows, types, p) is Ok,
    ensures
        convert_rows(rows, types, p)->Ok_0.len() == rows.len(),
        forall|i: int| 0 <= i < rows.len() ==> (#[trigger] convert_rows(rows, types, p)->Ok_0[i]).len() == rows[i].len(),
    decreases rows.len(),
{
    if rows.len() > 0 {
        lemma_convert_rows_shape(rows.drop_last(), types, p);
        lemma_convert_cells_len(rows.last(), types, p);
        let t = convert_rows(rows, types, p)->Ok_0;
        assert forall|i: int| 0 <= i < rows.len() implies (#[trigger] t[i]).len() == rows[i].len() by {
            if i < rows.len() - 1 {
                assert(rows.drop_last()[i] == rows[i]);
            }
        }
    }
}

/// The two packings of the same rows hold the same values: the value under
/// column `j` in the object of row `i` is element `i` of the array of column
/// `j`, both under column `j`'s name. One is the transpose of the other.
pub proof fn lemma_packings_transpose(rs: ResultSetModel, p: UnsupportedPolicy)
    requires
        distinct_names(rs.names),
        rs.types.len() == rs.names.len(),
        forall|i: int| 0 <= i < rs.rows.len() ==> (#[trigger] rs.rows[i]).len() == rs.names.len(),
        convert_rows(rs.rows, rs.types, p) is Ok,
    ensures
        ({
            let t = convert_rows(rs.rows, rs.types, p)->Ok_0;
            let objs = t.map_values(|vals: Seq<JsonModel>| object_of(rs.names, vals));
            let cols = columns_of(rs.names, t);
            &&& objs.len() == rs.rows.len()
            &&& cols.len() == if rs.rows.len() == 0 { 0 } else { rs.names.len() }
            &&& forall|j: int| 0 <= j < cols.len() ==> (#[trigger] cols[j]).0 == rs.names[j] && cols[j].1.len() == rs.rows.len()
            &&& forall|i: int| 0 <= i < objs.len() ==> (#[trigger] objs[i]).len() == rs.names.len()
            &&& forall|i: int, j: int|
                0 <= i < objs.len() && 0 <= j < rs.names.len() ==> (#[trigger] objs[i][j]) == (rs.names[j], cols[j].1[i])
        }),
{
    let t = convert_rows(rs.rows, rs.types, p)->Ok_0;
    lemma_convert_rows_shape(rs.rows, rs.types, p);
    assert forall|i: int| 0 <= i < t.len() implies (#[trigger] t[i]).len() == rs.names.len() by {
        assert(t[i].len() == rs.rows[i].len());
    }
    lemma_columns_of(rs.names, t);
    assert forall|i: int| 0 <= i < t.len() implies object_of(rs.names, #[trigger] t[i]) == Seq::new(t[i].len(), |j: int| (rs.names[j], t[i][j])) by {
        lemma_row_keys_in_column_order(rs.names, t[i]);
    }
}

} // verus!
