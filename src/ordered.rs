use vstd::prelude::*;
use indexmap::IndexMap;
use crate::json::{
    JsonModel, JsonValue, join, lemma_join_step, push_array, push_quoted, push_scalar,
    push_separator, quoted, scalar_text, array_text,
};

verus! {

/// `indexmap::IndexMap`, held opaque; what a map holds is named below.
#[verifier::external_type_specification]
#[verifier::external_body]
#[verifier::reject_recursive_types(K)]
#[verifier::reject_recursive_types(V)]
#[verifier::reject_recursive_types(S)]
pub struct ExIndexMap<K, V, S>(IndexMap<K, V, S>);

/// The position of the first entry with key `k`, or -1 where there is none.
pub open spec fn key_index<V>(e: Seq<(Seq<char>, V)>, k: Seq<char>) -> int
    decreases e.len(),
{
    if e.len() == 0 {
        -1
    } else if key_index(e.drop_last(), k) >= 0 {
        key_index(e.drop_last(), k)
    } else if e.last().0 == k {
        e.len() - 1
    } else {
        -1
    }
}

/// An insert into an ordered map: an existing key keeps its place and takes
/// the new value; a new key goes last.
pub open spec fn upsert<V>(e: Seq<(Seq<char>, V)>, k: Seq<char>, v: V) -> Seq<(Seq<char>, V)> {
    let j = key_index(e, k);
    if j >= 0 {
        e.update(j, (k, v))
    } else {
        e.push((k, v))
    }
}

pub proof fn lemma_key_index_bounds<V>(e: Seq<(Seq<char>, V)>, k: Seq<char>)
    ensures
        -1 <= key_index(e, k) < e.len(),
        key_index(e, k) >= 0 ==> e[key_index(e, k)].0 == k,
        key_index(e, k) < 0 ==> forall|j: int| 0 <= j < e.len() ==> e[j].0 != k,
    decreases e.len(),
{
    if e.len() > 0 {
        lemma_key_index_bounds(e.drop_last(), k);
        if key_index(e.drop_last(), k) < 0 && e.last().0 != k {
            assert forall|j: int| 0 <= j < e.len() implies e[j].0 != k by {
                if j < e.len() - 1 {
                    assert(e[j] == e.drop_last()[j]);
                }
            }
        }
    }
}

/// What a map of row values holds: its keys and values, in order.
pub uninterp spec fn object_entries(m: IndexMap<String, JsonValue>) -> Seq<(Seq<char>, JsonModel)>;

/// Relies on `IndexMap::new`: the new map is empty.
#[verifier::external_body]
fn object_map_new() -> (r: IndexMap<String, JsonValue>)
    ensures
        object_entries(r) == Seq::<(Seq<char>, JsonModel)>::empty(),
{
    IndexMap::new()
}

/// Relies on `IndexMap::insert`: an existing key keeps its place and takes the
/// new value, a new key goes last.
#[verifier::external_body]
fn object_map_insert(m: &mut IndexMap<String, JsonValue>, k: String, v: JsonValue)
    ensures
        object_entries(*final(m)) == upsert(object_entries(*old(m)), k@, v@),
{
    m.insert(k, v);
}

/// Relies on `IndexMap::get_index`: the entry at position `i`, if there is one.
#[verifier::external_body]
fn object_map_get_index(m: &IndexMap<String, JsonValue>, i: usize) -> (r: Option<(&String, &JsonValue)>)
    ensures
        match r {
            Some((k, v)) => i < object_entries(*m).len() && object_entries(*m)[i as int] == (k@, v@),
            None => i >= object_entries(*m).len(),
        },
{
    m.get_index(i)
}

/// Relies on `IndexMap::len`: the number of entries.
#[verifier::external_body]
fn object_map_len(m: &IndexMap<String, JsonValue>) -> (r: usize)
    ensures
        r == object_entries(*m).len(),
{
    m.len()
}

pub open spec fn member_text(k: Seq<char>, value_text: Seq<char>) -> Seq<char> {
    quoted(k) + seq![':'] + value_text
}

pub open spec fn object_text(e: Seq<(Seq<char>, JsonModel)>) -> Seq<char> {
    seq!['{'] + join(e.map_values(|p: (Seq<char>, JsonModel)| member_text(p.0, scalar_text(p.1))))
        + seq!['}']
}

/// A JSON object that keeps its keys in the order in which they were first
/// inserted.
pub struct OrderedJson(pub IndexMap<String, JsonValue>);

impl View for OrderedJson {
    type V = Seq<(Seq<char>, JsonModel)>;

    open spec fn view(&self) -> Seq<(Seq<char>, JsonModel)> {
        object_entries(self.0)
    }
}

impl OrderedJson {
    pub fn new() -> (r: Self)
        ensures
            r@ == Seq::<(Seq<char>, JsonModel)>::empty(),
    {
        OrderedJson(object_map_new())
    }

    pub fn insert(&mut self, key: String, value: JsonValue)
        ensures
            final(self)@ == upsert(old(self)@, key@, value@),
    {
        object_map_insert(&mut self.0, key, value);
    }

    pub fn len(&self) -> (r: usize)
        ensures
            r == self@.len(),
    {
        object_map_len(&self.0)
    }

    /// Appends the JSON text of the object to `out`.
    pub fn write(&self, out: &mut String)
        ensures
            final(out)@ == old(out)@ + object_text(self@),
    {
        let ghost start = out@;
        let ghost parts = self@.map_values(
            |p: (Seq<char>, JsonModel)| member_text(p.0, scalar_text(p.1)),
        );
        let n = self.len();
        out.push('{');
        let mut i: usize = 0;
        while i < n
            invariant
                n == self@.len(),
                i <= n,
                parts == self@.map_values(
                    |p: (Seq<char>, JsonModel)| member_text(p.0, scalar_text(p.1)),
                ),
                out@ == start + seq!['{'] + join(parts.take(i as int)),
            decreases n - i,
        {
            proof {
                lemma_join_step(parts, i as int);
            }
            match object_map_get_index(&self.0, i) {
                Some((k, v)) => {
                    let ghost before = out@;
                    push_separator(out, i);
                    push_quoted(out, k.as_str());
                    out.push(':');
                    push_scalar(out, v);
                    assert(out@ =~= start + seq!['{'] + join(parts.take(i + 1)));
                },
                None => {},
            }
            i = i + 1;
        }
        assert(parts.take(n as int) =~= parts);
        out.push('}');
        assert(out@ =~= start + object_text(self@));
    }
}

pub open spec fn values_model(vs: Seq<JsonValue>) -> Seq<JsonModel> {
    vs.map_values(|v: JsonValue| v@)
}

/// What a map of column arrays holds: its keys and arrays, in order.
pub uninterp spec fn column_entries(m: IndexMap<String, Vec<JsonValue>>) -> Seq<(Seq<char>, Seq<JsonModel>)>;

/// Relies on `IndexMap::new`: the new map is empty.
#[verifier::external_body]
fn column_map_new() -> (r: IndexMap<String, Vec<JsonValue>>)
    ensures
        column_entries(r) == Seq::<(Seq<char>, Seq<JsonModel>)>::empty(),
{
    IndexMap::new()
}

/// Relies on `IndexMap::insert`: an existing key keeps its place and takes the
/// new value, a new key goes last.
#[verifier::external_body]
fn column_map_insert(m: &mut IndexMap<String, Vec<JsonValue>>, k: String, v: Vec<JsonValue>)
    ensures
        column_entries(*final(m)) == upsert(column_entries(*old(m)), k@, values_model(v@)),
{
    m.insert(k, v);
}

/// Relies on `IndexMap::get_index_of`: the position of the key, if present.
#[verifier::external_body]
fn column_map_get_index_of(m: &IndexMap<String, Vec<JsonValue>>, k: &str) -> (r: Option<usize>)
    ensures
        match r {
            Some(j) => j == key_index(column_entries(*m), k@),
            None => key_index(column_entries(*m), k@) < 0,
        },
{
    m.get_index_of(k)
}

/// Relies on `IndexMut<usize>` of `IndexMap`: appends to the array at position `i`.
#[verifier::external_body]
fn column_map_push_at(m: &mut IndexMap<String, Vec<JsonValue>>, i: usize, v: JsonValue)
    requires
        i < column_entries(*old(m)).len(),
    ensures
        column_entries(*final(m)) == column_entries(*old(m)).update(
            i as int,
            (column_entries(*old(m))[i as int].0, column_entries(*old(m))[i as int].1.push(v@)),
        ),
{
    m[i].push(v);
}

/// Relies on `IndexMap::get_index`: the entry at position `i`, if there is one.
#[verifier::external_body]
fn column_map_get_index(m: &IndexMap<String, Vec<JsonValue>>, i: usize) -> (r: Option<(&String, &Vec<JsonValue>)>)
    ensures
        match r {
            Some((k, v)) => i < column_entries(*m).len() && column_entries(*m)[i as int] == (k@, values_model(v@)),
            None => i >= column_entries(*m).len(),
        },
{
    m.get_index(i)
}

/// Relies on `IndexMap::len`: the number of entries.
#[verifier::external_body]
fn column_map_len(m: &IndexMap<String, Vec<JsonValue>>) -> (r: usize)
    ensures
        r == column_entries(*m).len(),
{
    m.len()
}

/// The result of appending `v` to the array under key `k`, the array being
/// created, last in order, where the key is new.
pub open spec fn push_under(e: Seq<(Seq<char>, Seq<JsonModel>)>, k: Seq<char>, v: JsonModel) -> Seq<(Seq<char>, Seq<JsonModel>)> {
    let j = key_index(e, k);
    if j >= 0 {
        e.update(j, (k, e[j].1.push(v)))
    } else {
        e.push((k, seq![v]))
    }
}

pub open spec fn columns_text(e: Seq<(Seq<char>, Seq<JsonModel>)>) -> Seq<char> {
    seq!['{'] + join(e.map_values(|p: (Seq<char>, Seq<JsonModel>)| member_text(p.0, array_text(p.1))))
        + seq!['}']
}

/// A JSON object of arrays, one per column, that keeps its keys in the order
/// in which the columns were first seen.
pub struct ColumnArrays(pub IndexMap<String, Vec<JsonValue>>);

impl View for ColumnArrays {
    type V = Seq<(Seq<char>, Seq<JsonModel>)>;

    open spec fn view(&self) -> Seq<(Seq<char>, Seq<JsonModel>)> {
        column_entries(self.0)
    }
}

impl ColumnArrays {
    pub fn new() -> (r: Self)
        ensures
            r@ == Seq::<(Seq<char>, Seq<JsonModel>)>::empty(),
    {
        ColumnArrays(column_map_new())
    }

    /// Appends `value` to the array of column `key`.
    pub fn push(&mut self, key: String, value: JsonValue)
        ensures
            final(self)@ == push_under(old(self)@, key@, value@),
    {
        proof {
            lemma_key_index_bounds(self@, key@);
        }
        match column_map_get_index_of(&self.0, key.as_str()) {
            Some(j) => {
                column_map_push_at(&mut self.0, j, value);
            },
            None => {
                let ghost vm = value@;
                let mut arr: Vec<JsonValue> = Vec::new();
                arr.push(value);
                assert(values_model(arr@) =~= seq![vm]);
                column_map_insert(&mut self.0, key, arr);
            },
        }
    }

    pub fn len(&self) -> (r: usize)
        ensures
            r == self@.len(),
    {
        column_map_len(&self.0)
    }

    /// Appends the JSON text of the object to `out`.
    pub fn write(&self, out: &mut String)
        ensures
            final(out)@ == old(out)@ + columns_text(self@),
    {
        let ghost start = out@;
        let ghost parts = self@.map_values(
            |p: (Seq<char>, Seq<JsonModel>)| member_text(p.0, array_text(p.1)),
        );
        let n = self.len();
        out.push('{');
        let mut i: usize = 0;
        while i < n
            invariant
                n == self@.len(),
                i <= n,
                parts == self@.map_values(
                    |p: (Seq<char>, Seq<JsonModel>)| member_text(p.0, array_text(p.1)),
                ),
                out@ == start + seq!['{'] + join(parts.take(i as int)),
            decreases n - i,
        {
            proof {
                lemma_join_step(parts, i as int);
            }
            match column_map_get_index(&self.0, i) {
                Some((k, v)) => {
                    push_separator(out, i);
                    push_quoted(out, k.as_str());
                    out.push(':');
                    push_array(out, v);
                    assert(out@ =~= start + seq!['{'] + join(parts.take(i + 1)));
                },
                None => {},
            }
            i = i + 1;
        }
        assert(parts.take(n as int) =~= parts);
        out.push('}');
        assert(out@ =~= start + columns_text(self@));
    }
}

} // verus!
