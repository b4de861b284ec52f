//! The JSON wire format of the service's responses: one row as
//! `{"id":1,"name":"buy milk","is_complete":false}`, the list as a JSON array
//! of such objects. The name is escaped the JSON way: `"` and `\` get a
//! backslash, control characters become `\u00` and two hex digits.

use vstd::prelude::*;
use crate::todo::{Todo, TodoView, todos_view};

verus! {

/// The decimal digit characters.
pub open spec fn spec_digit(d: int) -> char {
    if d == 0 {
        '0'
    } else if d == 1 {
        '1'
    } else if d == 2 {
        '2'
    } else if d == 3 {
        '3'
    } else if d == 4 {
        '4'
    } else if d == 5 {
        '5'
    } else if d == 6 {
        '6'
    } else if d == 7 {
        '7'
    } else if d == 8 {
        '8'
    } else {
        '9'
    }
}

/// The hexadecimal digit characters, lower case.
pub open spec fn spec_hex_digit(d: int) -> char {
    if d < 10 {
        spec_digit(d)
    } else if d == 10 {
        'a'
    } else if d == 11 {
        'b'
    } else if d == 12 {
        'c'
    } else if d == 13 {
        'd'
    } else if d == 14 {
        'e'
    } else {
        'f'
    }
}

/// The decimal numeral of a non-negative integer, most significant digit
/// first, with no leading zeros (a lone `0` for zero).
pub open spec fn spec_decimal(n: int) -> Seq<char>
    decreases n,
{
    if n < 10 {
        seq![spec_digit(n)]
    } else {
        spec_decimal(n / 10).push(spec_digit(n % 10))
    }
}

/// How one character of a name appears inside a JSON string.
pub open spec fn spec_escape_char(c: char) -> Seq<char> {
    if c == '"' {
        seq!['\\', '"']
    } else if c == '\\' {
        seq!['\\', '\\']
    } else if (c as int) < 32 {
        seq!['\\', 'u', '0', '0', spec_hex_digit(c as int / 16), spec_hex_digit(c as int % 16)]
    } else {
        seq![c]
    }
}

/// How a whole name appears inside a JSON string: each character escaped.
pub open spec fn spec_escape(s: Seq<char>) -> Seq<char>
    decreases s.len(),
{
    if s.len() == 0 {
        Seq::empty()
    } else {
        spec_escape(s.drop_last()) + spec_escape_char(s.last())
    }
}

/// The JSON encoding of one row.
pub open spec fn spec_encode_todo(t: TodoView) -> Seq<char> {
    "{\"id\":"@ + spec_decimal(t.id) + ",\"name\":\""@ + spec_escape(t.name)
        + "\",\"is_complete\":"@ + (if t.is_complete {
        "true"@
    } else {
        "false"@
    }) + "}"@
}

/// The comma-separated encodings of the rows, without the brackets.
pub open spec fn spec_encode_items(s: Seq<TodoView>) -> Seq<char>
    decreases s.len(),
{
    if s.len() == 0 {
        Seq::empty()
    } else if s.len() == 1 {
        spec_encode_todo(s[0])
    } else {
        spec_encode_items(s.drop_last()) + ","@ + spec_encode_todo(s.last())
    }
}

/// The JSON encoding of the whole list.
pub open spec fn spec_encode_list(s: Seq<TodoView>) -> Seq<char> {
    "["@ + spec_encode_items(s) + "]"@
}

/// Relies on String::push, which appends the given character to the string.
#[verifier::external_body]
fn push_char(s: &mut String, c: char)
    ensures
        final(s)@ == old(s)@.push(c),
{
    s.push(c);
}

/// The decimal digit character of one digit value.
fn digit_char(d: u64) -> (c: char)
    requires
        d < 10,
    ensures
        c == spec_digit(d as int),
{
    match d {
        0 => '0',
        1 => '1',
        2 => '2',
        3 => '3',
        4 => '4',
        5 => '5',
        6 => '6',
        7 => '7',
        8 => '8',
        _ => '9',
    }
}

/// The hexadecimal digit character of one digit value.
fn hex_digit_char(d: u32) -> (c: char)
    requires
        d < 16,
    ensures
        c == spec_hex_digit(d as int),
{
    match d {
        0 => '0',
        1 => '1',
        2 => '2',
        3 => '3',
        4 => '4',
        5 => '5',
        6 => '6',
        7 => '7',
        8 => '8',
        9 => '9',
        10 => 'a',
        11 => 'b',
        12 => 'c',
        13 => 'd',
        14 => 'e',
        _ => 'f',
    }
}

/// Append the decimal numeral of `n` to `out`.
fn append_decimal(out: &mut String, n: u64)
    ensures
        final(out)@ == old(out)@ + spec_decimal(n as int),
    decreases n,
{
    if n < 10 {
        push_char(out, digit_char(n));
        proof {
            assert(out@ =~= old(out)@ + spec_decimal(n as int));
        }
    } else {
        append_decimal(out, n / 10);
        push_char(out, digit_char(n % 10));
        proof {
            assert(out@ =~= old(out)@ + spec_decimal(n as int));
        }
    }
}

/// Append the escaped form of one name character to `out`.
fn append_escaped_char(out: &mut String, c: char)
    ensures
        final(out)@ == old(out)@ + spec_escape_char(c),
{
    if c == '"' {
        out.append("\\\"");
        proof {
            reveal_strlit("\\\"");
            assert(out@ =~= old(out)@ + spec_escape_char(c));
        }
    } else if c == '\\' {
        out.append("\\\\");
        proof {
            reveal_strlit("\\\\");
            assert(out@ =~= old(out)@ + spec_escape_char(c));
        }
    } else if (c as u32) < 32 {
        out.append("\\u00");
        push_char(out, hex_digit_char((c as u32) / 16));
        push_char(out, hex_digit_char((c as u32) % 16));
        proof {
            reveal_strlit("\\u00");
            assert(out@ =~= old(out)@ + spec_escape_char(c));
        }
    } else {
        push_char(out, c);
        proof {
            assert(out@ =~= old(out)@ + spec_escape_char(c));
        }
    }
}

/// Append the escaped form of a whole name to `out`.
fn append_escaped(out: &mut String, name: &str)
    ensures
        final(out)@ == old(out)@ + spec_escape(name@),
{
    let n = name.unicode_len();
    for i in 0..n
        invariant
            n == name@.len(),
            out@ == old(out)@ + spec_escape(name@.take(i as int)),
    {
        let c = name.get_char(i);
        append_escaped_char(out, c);
        proof {
            assert(name@.take(i + 1).drop_last() =~= name@.take(i as int));
            assert(name@.take(i + 1).last() == name@[i as int]);
        }
    }
    proof {
        assert(name@.take(n as int) =~= name@);
    }
}

/// Append the JSON encoding of one row to `out`.
fn append_todo(out: &mut String, t: &Todo)
    requires
        t@.id >= 0,
    ensures
        final(out)@ == old(out)@ + spec_encode_todo(t@),
{
    out.append("{\"id\":");
    append_decimal(out, t.id as u64);
    out.append(",\"name\":\"");
    append_escaped(out, t.name.as_str());
    out.append("\",\"is_complete\":");
    if t.is_complete {
        out.append("true");
    } else {
        out.append("false");
    }
    out.append("}");
}

/// The JSON encoding of one row: the response body of a successful create.
pub fn encode_todo(t: &Todo) -> (r: String)
    requires
        t@.id >= 0,
    ensures
        r@ == spec_encode_todo(t@),
{
    let mut out = String::new();
    append_todo(&mut out, t);
    proof {
        assert(out@ =~= spec_encode_todo(t@));
    }
    out
}

/// The JSON encoding of a list of rows: the response body of a list.
pub fn encode_list(todos: &Vec<Todo>) -> (r: String)
    requires
        forall|i: int| 0 <= i < todos@.len() ==> #[trigger] todos@[i]@.id >= 0,
    ensures
        r@ == spec_encode_list(todos_view(todos@)),
{
    let ghost model = todos_view(todos@);
    let mut out = String::new();
    out.append("[");
    let n = todos.len();
    for i in 0..n
        invariant
            n == todos@.len(),
            model == todos_view(todos@),
            forall|k: int| 0 <= k < todos@.len() ==> #[trigger] todos@[k]@.id >= 0,
            out@ == "["@ + spec_encode_items(model.take(i as int)),
    {
        if i > 0 {
            out.append(",");
        }
        append_todo(&mut out, &todos[i]);
        proof {
            assert(model.take(i + 1).drop_last() =~= model.take(i as int));
            assert(model.take(i + 1).last() == model[i as int]);
            assert(model[i as int] == todos@[i as int]@);
            if i == 0 {
                assert(spec_encode_items(model.take(1)) =~= spec_encode_todo(model[0]));
                assert(out@ =~= "["@ + spec_encode_items(model.take(i + 1)));
            } else {
                assert(out@ =~= "["@ + spec_encode_items(model.take(i + 1)));
            }
        }
    }
    out.append("]");
    proof {
        assert(model.take(n as int) =~= model);
        assert(out@ =~= spec_encode_list(model));
    }
    out
}

} // verus!
