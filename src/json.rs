use vstd::prelude::*;

verus! {

/// A scalar JSON value as produced for one table cell.
pub enum JsonValue {
    Null,
    Bool(bool),
    /// A JSON number, held as its literal text so that no precision is lost.
    Number(String),
    String(String),
}

/// Mathematical model of a [`JsonValue`].
pub enum JsonModel {
    Null,
    Bool(bool),
    Number(Seq<char>),
    Str(Seq<char>),
}

impl View for JsonValue {
    type V = JsonModel;

    open spec fn view(&self) -> JsonModel {
        match self {
            JsonValue::Null => JsonModel::Null,
            JsonValue::Bool(b) => JsonModel::Bool(*b),
            JsonValue::Number(n) => JsonModel::Number(n@),
            JsonValue::String(s) => JsonModel::Str(s@),
        }
    }
}

pub open spec fn hex_digit(n: int) -> char {
    if n < 10 {
        (48 + n) as char
    } else {
        (87 + n) as char
    }
}

/// How one character stands inside a JSON string literal.
pub open spec fn escape_char(c: char) -> Seq<char> {
    if c == '"' {
        seq!['\\', '"']
    } else if c == '\\' {
        seq!['\\', '\\']
    } else if c == '\n' {
        seq!['\\', 'n']
    } else if c == '\r' {
        seq!['\\', 'r']
    } else if c == '\t' {
        seq!['\\', 't']
    } else if c == '\x08' {
        seq!['\\', 'b']
    } else if c == '\x0c' {
        seq!['\\', 'f']
    } else if (c as u32) < 0x20 {
        seq!['\\', 'u', '0', '0', hex_digit(c as int / 16), hex_digit(c as int % 16)]
    } else {
        seq![c]
    }
}

pub open spec fn escaped(s: Seq<char>) -> Seq<char>
    decreases s.len(),
{
    if s.len() == 0 {
        Seq::empty()
    } else {
        escaped(s.drop_last()) + escape_char(s.last())
    }
}

/// The JSON string literal of a text.
pub open spec fn quoted(s: Seq<char>) -> Seq<char> {
    seq!['"'] + escaped(s) + seq!['"']
}

pub open spec fn scalar_text(v: JsonModel) -> Seq<char> {
    match v {
        JsonModel::Null => "null"@,
        JsonModel::Bool(b) => if b { "true"@ } else { "false"@ },
        JsonModel::Number(n) => n,
        JsonModel::Str(s) => quoted(s),
    }
}

fn hex_char(n: u32) -> (c: char)
    requires
        n < 16,
    ensures
        c == hex_digit(n as int),
{
    if n < 10 {
        ((n + 48) as u8) as char
    } else {
        ((n + 87) as u8) as char
    }
}

fn push_escaped_char(out: &mut String, c: char)
    ensures
        final(out)@ == old(out)@ + escape_char(c),
{
    let ghost start = out@;
    if c == '"' {
        out.push('\\');
        out.push('"');
    } else if c == '\\' {
        out.push('\\');
        out.push('\\');
    } else if c == '\n' {
        out.push('\\');
        out.push('n');
    } else if c == '\r' {
        out.push('\\');
        out.push('r');
    } else if c == '\t' {
        out.push('\\');
        out.push('t');
    } else if c == '\x08' {
        out.push('\\');
        out.push('b');
    } else if c == '\x0c' {
        out.push('\\');
        out.push('f');
    } else if (c as u32) < 0x20 {
        let v = c as u32;
        out.push('\\');
        out.push('u');
        out.push('0');
        out.push('0');
        out.push(hex_char(v / 16));
        out.push(hex_char(v % 16));
    } else {
        out.push(c);
    }
    assert(out@ =~= start + escape_char(c));
}

/// Appends the JSON string literal of `s` to `out`.
pub fn push_quoted(out: &mut String, s: &str)
    ensures
        final(out)@ == old(out)@ + quoted(s@),
{
    let ghost start = out@;
    out.push('"');
    for c in it: s.chars()
        invariant
            it.seq() == s@,
            out@ == start + seq!['"'] + escaped(s@.take(it.index() as int)),
    {
        proof {
            let i = it.index() as int;
            assert(s@.take(i + 1).drop_last() =~= s@.take(i));
        }
        push_escaped_char(out, c);
        proof {
            let i = it.index() as int;
            assert(out@ =~= start + seq!['"'] + escaped(s@.take(i + 1)));
        }
    }
    assert(s@.take(s@.len() as int) =~= s@);
    out.push('"');
    assert(out@ =~= start + quoted(s@));
}

/// Appends the JSON text of a scalar to `out`.
pub fn push_scalar(out: &mut String, v: &JsonValue)
    ensures
        final(out)@ == old(out)@ + scalar_text(v@),
{
    match v {
        JsonValue::Null => out.append("null"),
        JsonValue::Bool(b) => if *b {
            out.append("true")
        } else {
            out.append("false")
        },
        JsonValue::Number(n) => out.append(n.as_str()),
        JsonValue::String(t) => push_quoted(out, t.as_str()),
    }
}

/// The parts joined with commas.
pub open spec fn join(parts: Seq<Seq<char>>) -> Seq<char>
    decreases parts.len(),
{
    if parts.len() == 0 {
        Seq::empty()
    } else if parts.len() == 1 {
        parts[0]
    } else {
        join(parts.drop_last()) + seq![','] + parts.last()
    }
}

pub proof fn lemma_join_step(parts: Seq<Seq<char>>, i: int)
    requires
        0 <= i < parts.len(),
    ensures
        join(parts.take(i + 1)) == join(parts.take(i)) + (if i == 0 {
            Seq::<char>::empty()
        } else {
            seq![',']
        }) + parts[i],
{
    assert(parts.take(i + 1).drop_last() =~= parts.take(i));
    if i == 0 {
        assert(parts.take(0) =~= Seq::<Seq<char>>::empty());
        assert(join(parts.take(0)) + Seq::<char>::empty() + parts[0] =~= parts[0]);
    }
}

/// Appends the comma that stands before item `i` of a list.
pub fn push_separator(out: &mut String, i: usize)
    ensures
        final(out)@ == old(out)@ + (if i == 0 {
            Seq::<char>::empty()
        } else {
            seq![',']
        }),
{
    if i > 0 {
        out.push(',');
    } else {
        assert(out@ =~= out@ + Seq::<char>::empty());
    }
}

pub open spec fn array_text(vs: Seq<JsonModel>) -> Seq<char> {
    seq!['['] + join(vs.map_values(|v: JsonModel| scalar_text(v))) + seq![']']
}

/// Appends the JSON array of the values to `out`.
pub fn push_array(out: &mut String, vs: &Vec<JsonValue>)
    ensures
        final(out)@ == old(out)@ + array_text(vs@.map_values(|v: JsonValue| v@)),
{
    let ghost start = out@;
    let ghost parts = vs@.map_values(|v: JsonValue| v@).map_values(|v: JsonModel| scalar_text(v));
    out.push('[');
    let mut i: usize = 0;
    while i < vs.len()
        invariant
            i <= vs.len(),
            parts.len() == vs.len(),
            parts == vs@.map_values(|v: JsonValue| v@).map_values(|v: JsonModel| scalar_text(v)),
            out@ == start + seq!['['] + join(parts.take(i as int)),
        decreases vs.len() - i,
    {
        proof {
            lemma_join_step(parts, i as int);
        }
        push_separator(out, i);
        push_scalar(out, &vs[i]);
        i = i + 1;
    }
    assert(parts.take(vs.len() as int) =~= parts);
    out.push(']');
    assert(out@ =~= start + array_text(vs@.map_values(|v: JsonValue| v@)));
}

} // verus!
