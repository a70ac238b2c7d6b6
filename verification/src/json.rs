//! Byte-exact JSON encoding for the wire format of the service.
//!
//! Everything is stated over `Seq<u8>`: the body of every response is a
//! byte string, and the spec functions here define it exactly.

use vstd::prelude::*;
use crate::model::{List, Todo};

verus! {

/// The decimal digits of `n`, most significant first.
pub open spec fn dec_digits(n: nat) -> Seq<u8>
    decreases n,
{
    if n < 10 {
        seq![(0x30 + n) as u8]
    } else {
        dec_digits(n / 10) + seq![(0x30 + n % 10) as u8]
    }
}

/// The decimal representation of a signed integer: a minus sign for
/// negative values, then the digits of the magnitude.
pub open spec fn int_digits(n: int) -> Seq<u8> {
    if n < 0 {
        seq![0x2du8] + dec_digits((-n) as nat)
    } else {
        dec_digits(n as nat)
    }
}

/// Appends the decimal digits of `n` to `out`.
pub fn push_dec_u64(n: u64, out: &mut Vec<u8>)
    ensures
        final(out)@ == old(out)@ + dec_digits(n as nat),
    decreases n,
{
    if n < 10 {
        out.push(0x30 + (n as u8));
        proof {
            assert(old(out)@.push((0x30 + n as nat) as u8) =~= old(out)@ + dec_digits(
                n as nat,
            ));
        }
    } else {
        push_dec_u64(n / 10, out);
        out.push(0x30 + ((n % 10) as u8));
        proof {
            assert((old(out)@ + dec_digits((n / 10) as nat)).push(
                (0x30 + (n as nat) % 10) as u8,
            ) =~= old(out)@ + dec_digits(n as nat));
        }
    }
}

/// Appends the decimal representation of `n`, with a leading minus
/// sign when `n` is negative.
pub fn push_dec_i64(n: i64, out: &mut Vec<u8>)
    ensures
        final(out)@ == old(out)@ + int_digits(n as int),
{
    if n < 0 {
        out.push(0x2d);
        let m: u64 = if n == i64::MIN {
            9223372036854775808u64
        } else {
            (-n) as u64
        };
        proof {
            assert(m as nat == (-(n as int)) as nat);
        }
        push_dec_u64(m, out);
        proof {
            assert(old(out)@.push(0x2du8) + dec_digits(m as nat) =~= old(out)@ + int_digits(
                n as int,
            ));
        }
    } else {
        push_dec_u64(n as u64, out);
    }
}

/// The lowercase hexadecimal digit for a value below 16.
pub open spec fn hex_digit(n: u8) -> u8 {
    if n < 10 {
        (0x30 + n) as u8
    } else {
        (0x57 + n) as u8
    }
}

/// How one byte of a string value appears inside a JSON string:
/// quote and backslash are escaped, control bytes get their short
/// escape or a `\u00..` escape, everything else stands as itself.
pub open spec fn escape_byte(b: u8) -> Seq<u8> {
    if b == 0x22 {
        seq![0x5cu8, 0x22u8]
    } else if b == 0x5c {
        seq![0x5cu8, 0x5cu8]
    } else if b == 0x08 {
        seq![0x5cu8, 0x62u8]
    } else if b == 0x09 {
        seq![0x5cu8, 0x74u8]
    } else if b == 0x0a {
        seq![0x5cu8, 0x6eu8]
    } else if b == 0x0c {
        seq![0x5cu8, 0x66u8]
    } else if b == 0x0d {
        seq![0x5cu8, 0x72u8]
    } else if b < 0x20 {
        seq![0x5cu8, 0x75u8, 0x30u8, 0x30u8, hex_digit(b / 16), hex_digit(b % 16)]
    } else {
        seq![b]
    }
}

/// A whole byte string, escaped byte by byte.
pub open spec fn escaped(s: Seq<u8>) -> Seq<u8>
    decreases s.len(),
{
    if s.len() == 0 {
        Seq::empty()
    } else {
        escaped(s.drop_last()) + escape_byte(s.last())
    }
}

/// A JSON string: the escaped bytes between two quotes.
pub open spec fn json_string(s: Seq<u8>) -> Seq<u8> {
    seq![0x22u8] + escaped(s) + seq![0x22u8]
}

/// A JSON boolean literal.
pub open spec fn bool_lit(b: bool) -> Seq<u8> {
    if b {
        seq![0x74u8, 0x72u8, 0x75u8, 0x65u8]
    } else {
        seq![0x66u8, 0x61u8, 0x6cu8, 0x73u8, 0x65u8]
    }
}

/// Appends the escape of one byte to `out`.
pub fn push_escaped_byte(b: u8, out: &mut Vec<u8>)
    ensures
        final(out)@ == old(out)@ + escape_byte(b),
{
    if b == 0x22 {
        out.push(0x5c);
        out.push(0x22);
    } else if b == 0x5c {
        out.push(0x5c);
        out.push(0x5c);
    } else if b == 0x08 {
        out.push(0x5c);
        out.push(0x62);
    } else if b == 0x09 {
        out.push(0x5c);
        out.push(0x74);
    } else if b == 0x0a {
        out.push(0x5c);
        out.push(0x6e);
    } else if b == 0x0c {
        out.push(0x5c);
        out.push(0x66);
    } else if b == 0x0d {
        out.push(0x5c);
        out.push(0x72);
    } else if b < 0x20 {
        let hi: u8 = b / 16;
        let lo: u8 = b % 16;
        let hex_lo: u8 = if lo < 10 {
            0x30 + lo
        } else {
            0x57 + lo
        };
        out.push(0x5c);
        out.push(0x75);
        out.push(0x30);
        out.push(0x30);
        out.push(0x30 + hi);
        out.push(hex_lo);
    } else {
        out.push(b);
    }
}

/// Appends `s` as a JSON string, quotes included.
pub fn push_json_string(s: &Vec<u8>, out: &mut Vec<u8>)
    ensures
        final(out)@ == old(out)@ + json_string(s@),
{
    out.push(0x22);
    let mut i: usize = 0;
    while i < s.len()
        invariant
            i <= s@.len(),
            out@ == old(out)@ + seq![0x22u8] + escaped(s@.take(i as int)),
        decreases s@.len() - i,
    {
        push_escaped_byte(s[i], out);
        proof {
            assert(s@.take(i + 1).drop_last() =~= s@.take(i as int));
            assert(escaped(s@.take(i + 1)) == escaped(s@.take(i as int)) + escape_byte(
                s@[i as int],
            ));
        }
        i = i + 1;
    }
    out.push(0x22);
    proof {
        assert(s@.take(s@.len() as int) =~= s@);
        assert(old(out)@ + seq![0x22u8] + escaped(s@) + seq![0x22u8] =~= old(out)@ + json_string(
            s@,
        ));
    }
}

/// Appends `true` or `false`.
pub fn push_bool(b: bool, out: &mut Vec<u8>)
    ensures
        final(out)@ == old(out)@ + bool_lit(b),
{
    if b {
        out.push(0x74);
        out.push(0x72);
        out.push(0x75);
        out.push(0x65);
    } else {
        out.push(0x66);
        out.push(0x61);
        out.push(0x6c);
        out.push(0x73);
        out.push(0x65);
    }
}

/// The opening of an object and its `"id":` key.
pub open spec fn key_id() -> Seq<u8> {
    seq![0x7bu8, 0x22u8, 0x69u8, 0x64u8, 0x22u8, 0x3au8]
}

/// The `,"name":` key.
pub open spec fn key_name() -> Seq<u8> {
    seq![0x2cu8, 0x22u8, 0x6eu8, 0x61u8, 0x6du8, 0x65u8, 0x22u8, 0x3au8]
}

/// The `,"text":` key.
pub open spec fn key_text() -> Seq<u8> {
    seq![0x2cu8, 0x22u8, 0x74u8, 0x65u8, 0x78u8, 0x74u8, 0x22u8, 0x3au8]
}

/// The `,"checked":` key.
pub open spec fn key_checked() -> Seq<u8> {
    seq![0x2cu8, 0x22u8, 0x63u8, 0x68u8, 0x65u8, 0x63u8, 0x6bu8, 0x65u8, 0x64u8, 0x22u8, 0x3au8]
}

/// The `,"list_id":` key.
pub open spec fn key_list_id() -> Seq<u8> {
    seq![
        0x2cu8,
        0x22u8,
        0x6cu8,
        0x69u8,
        0x73u8,
        0x74u8,
        0x5fu8,
        0x69u8,
        0x64u8,
        0x22u8,
        0x3au8,
    ]
}

/// One list as a JSON object: `{"id":<id>,"name":"<name>"}`.
pub open spec fn list_json(l: List) -> Seq<u8> {
    key_id() + int_digits(l.id as int) + key_name() + json_string(l.name@) + seq![0x7du8]
}

/// One todo as a JSON object:
/// `{"id":<id>,"text":"<text>","checked":<checked>,"list_id":<list_id>}`.
pub open spec fn todo_json(t: Todo) -> Seq<u8> {
    key_id() + int_digits(t.id as int) + key_text() + json_string(t.text@) + key_checked()
        + bool_lit(t.checked) + key_list_id() + int_digits(t.list_id as int) + seq![0x7du8]
}

/// Appends the object opening and its `"id":` key.
fn push_key_id(out: &mut Vec<u8>)
    ensures
        final(out)@ == old(out)@ + key_id(),
{
    out.push(0x7b);
    out.push(0x22);
    out.push(0x69);
    out.push(0x64);
    out.push(0x22);
    out.push(0x3a);
}

/// Appends the `,"name":` key.
fn push_key_name(out: &mut Vec<u8>)
    ensures
        final(out)@ == old(out)@ + key_name(),
{
    out.push(0x2c);
    out.push(0x22);
    out.push(0x6e);
    out.push(0x61);
    out.push(0x6d);
    out.push(0x65);
    out.push(0x22);
    out.push(0x3a);
}

/// Appends the `,"text":` key.
fn push_key_text(out: &mut Vec<u8>)
    ensures
        final(out)@ == old(out)@ + key_text(),
{
    out.push(0x2c);
    out.push(0x22);
    out.push(0x74);
    out.push(0x65);
    out.push(0x78);
    out.push(0x74);
    out.push(0x22);
    out.push(0x3a);
}

/// Appends the `,"checked":` key.
fn push_key_checked(out: &mut Vec<u8>)
    ensures
        final(out)@ == old(out)@ + key_checked(),
{
    out.push(0x2c);
    out.push(0x22);
    out.push(0x63);
    out.push(0x68);
    out.push(0x65);
    out.push(0x63);
    out.push(0x6b);
    out.push(0x65);
    out.push(0x64);
    out.push(0x22);
    out.push(0x3a);
}

/// Appends the `,"list_id":` key.
fn push_key_list_id(out: &mut Vec<u8>)
    ensures
        final(out)@ == old(out)@ + key_list_id(),
{
    out.push(0x2c);
    out.push(0x22);
    out.push(0x6c);
    out.push(0x69);
    out.push(0x73);
    out.push(0x74);
    out.push(0x5f);
    out.push(0x69);
    out.push(0x64);
    out.push(0x22);
    out.push(0x3a);
}

/// Appends the JSON object for one list.
pub fn push_list(l: &List, out: &mut Vec<u8>)
    ensures
        final(out)@ == old(out)@ + list_json(*l),
{
    push_key_id(out);
    push_dec_i64(l.id, out);
    push_key_name(out);
    push_json_string(&l.name, out);
    out.push(0x7d);
    proof {
        assert(out@ =~= old(out)@ + list_json(*l));
    }
}

/// Appends the JSON object for one todo.
pub fn push_todo(t: &Todo, out: &mut Vec<u8>)
    ensures
        final(out)@ == old(out)@ + todo_json(*t),
{
    push_key_id(out);
    push_dec_i64(t.id, out);
    push_key_text(out);
    push_json_string(&t.text, out);
    push_key_checked(out);
    push_bool(t.checked, out);
    push_key_list_id(out);
    push_dec_i64(t.list_id, out);
    out.push(0x7d);
    proof {
        assert(out@ =~= old(out)@ + todo_json(*t));
    }
}

/// The elements of a JSON array of lists, separated by commas.
pub open spec fn lists_json_items(s: Seq<List>) -> Seq<u8>
    decreases s.len(),
{
    if s.len() == 0 {
        Seq::empty()
    } else if s.len() == 1 {
        list_json(s[0])
    } else {
        lists_json_items(s.drop_last()) + seq![0x2cu8] + list_json(s.last())
    }
}

/// A JSON array of lists: `[` elements `]`.
pub open spec fn lists_json(s: Seq<List>) -> Seq<u8> {
    seq![0x5bu8] + lists_json_items(s) + seq![0x5du8]
}

/// The elements of a JSON array of todos, separated by commas.
pub open spec fn todos_json_items(s: Seq<Todo>) -> Seq<u8>
    decreases s.len(),
{
    if s.len() == 0 {
        Seq::empty()
    } else if s.len() == 1 {
        todo_json(s[0])
    } else {
        todos_json_items(s.drop_last()) + seq![0x2cu8] + todo_json(s.last())
    }
}

/// A JSON array of todos: `[` elements `]`.
pub open spec fn todos_json(s: Seq<Todo>) -> Seq<u8> {
    seq![0x5bu8] + todos_json_items(s) + seq![0x5du8]
}

/// Encodes a sequence of lists as a JSON array, byte for byte.
pub fn encode_lists(v: &Vec<List>) -> (r: Vec<u8>)
    ensures
        r@ == lists_json(v@),
{
    let mut out: Vec<u8> = Vec::new();
    out.push(0x5b);
    let mut i: usize = 0;
    while i < v.len()
        invariant
            i <= v@.len(),
            out@ == seq![0x5bu8] + lists_json_items(v@.take(i as int)),
        decreases v@.len() - i,
    {
        if i > 0 {
            out.push(0x2c);
        }
        push_list(&v[i], &mut out);
        proof {
            assert(v@.take(i + 1).drop_last() =~= v@.take(i as int));
            if i == 0 {
                assert(lists_json_items(v@.take(1)) == list_json(v@[0]));
                assert(out@ =~= seq![0x5bu8] + lists_json_items(v@.take(1)));
            } else {
                assert(lists_json_items(v@.take(i + 1)) == lists_json_items(v@.take(i as int))
                    + seq![0x2cu8] + list_json(v@[i as int]));
                assert(out@ =~= seq![0x5bu8] + lists_json_items(v@.take(i + 1)));
            }
        }
        i = i + 1;
    }
    out.push(0x5d);
    proof {
        assert(v@.take(v@.len() as int) =~= v@);
        assert(out@ =~= lists_json(v@));
    }
    out
}

/// Encodes a sequence of todos as a JSON array, byte for byte.
pub fn encode_todos(v: &Vec<Todo>) -> (r: Vec<u8>)
    ensures
        r@ == todos_json(v@),
{
    let mut out: Vec<u8> = Vec::new();
    out.push(0x5b);
    let mut i: usize = 0;
    while i < v.len()
        invariant
            i <= v@.len(),
            out@ == seq![0x5bu8] + todos_json_items(v@.take(i as int)),
        decreases v@.len() - i,
    {
        if i > 0 {
            out.push(0x2c);
        }
        push_todo(&v[i], &mut out);
        proof {
            assert(v@.take(i + 1).drop_last() =~= v@.take(i as int));
            if i == 0 {
                assert(todos_json_items(v@.take(1)) == todo_json(v@[0]));
                assert(out@ =~= seq![0x5bu8] + todos_json_items(v@.take(1)));
            } else {
                assert(todos_json_items(v@.take(i + 1)) == todos_json_items(v@.take(i as int))
                    + seq![0x2cu8] + todo_json(v@[i as int]));
                assert(out@ =~= seq![0x5bu8] + todos_json_items(v@.take(i + 1)));
            }
        }
        i = i + 1;
    }
    out.push(0x5d);
    proof {
        assert(v@.take(v@.len() as int) =~= v@);
        assert(out@ =~= todos_json(v@));
    }
    out
}

} // verus!
