//! Serialization of [`Json`] documents to their canonical text: no
//! whitespace, object members in stored order, strings with the standard
//! short escapes and `\u00XX` for the remaining control characters.

use crate::json::{json_view, json_view_members, json_view_seq, lemma_view_members_len,
    lemma_view_seq_len, Json, JsonV};
use crate::text::{chars_to_string, digit_char, push_u64_dec, sp_dec, sp_digit_char};
use vstd::prelude::*;

verus! {

/// The character for a hexadecimal digit, lower case.
pub open spec fn sp_hex_char(d: nat) -> char {
    if d < 10 {
        sp_digit_char(d)
    } else if d == 10 {
        'a'
    } else if d == 11 {
        'b'
    } else if d == 12 {
        'c'
    } else if d == 13 {
        'd'
    } else if d == 14 {
        'e'
    } else {
        'f'
    }
}

/// How a single character is rendered inside a JSON string literal.
pub open spec fn sp_escape_char(c: char) -> Seq<char> {
    if c == '"' {
        seq!['\\', '"']
    } else if c == '\\' {
        seq!['\\', '\\']
    } else if c == '\n' {
        seq!['\\', 'n']
    } else if c == '\r' {
        seq!['\\', 'r']
    } else if c == '\t' {
        seq!['\\', 't']
    } else if c == '\u{8}' {
        seq!['\\', 'b']
    } else if c == '\u{c}' {
        seq!['\\', 'f']
    } else if (c as u32) < 0x20 {
        seq!['\\', 'u', '0', '0', sp_hex_char((c as u32 / 16) as nat), sp_hex_char(
            (c as u32 % 16) as nat,
        )]
    } else {
        seq![c]
    }
}

/// The rendering of a string body inside its quotes.
pub open spec fn sp_escape(s: Seq<char>) -> Seq<char>
    decreases s.len(),
{
    if s.len() == 0 {
        Seq::empty()
    } else {
        sp_escape_char(s.first()) + sp_escape(s.drop_first())
    }
}

/// Escaping distributes over concatenation.
pub proof fn lemma_escape_append(a: Seq<char>, b: Seq<char>)
    ensures
        sp_escape(a + b) == sp_escape(a) + sp_escape(b),
    decreases a.len(),
{
    if a.len() == 0 {
        assert(a + b =~= b);
        assert(sp_escape(a) + sp_escape(b) =~= sp_escape(b));
    } else {
        lemma_escape_append(a.drop_first(), b);
        assert((a + b).first() == a.first());
        assert((a + b).drop_first() =~= a.drop_first() + b);
        assert(sp_escape_char(a.first()) + (sp_escape(a.drop_first()) + sp_escape(b))
            =~= sp_escape_char(a.first()) + sp_escape(a.drop_first()) + sp_escape(b));
    }
}

/// The rendering of an integer: a minus sign for negatives, then decimal
/// digits without leading zeros.
pub open spec fn sp_ser_int(n: int) -> Seq<char> {
    if n < 0 {
        seq!['-'] + sp_dec((-n) as nat)
    } else {
        sp_dec(n as nat)
    }
}

/// The canonical text of a document.
pub open spec fn sp_ser(v: JsonV) -> Seq<char>
    decreases v,
{
    match v {
        JsonV::Null => seq!['n', 'u', 'l', 'l'],
        JsonV::Bool(b) => if b {
            seq!['t', 'r', 'u', 'e']
        } else {
            seq!['f', 'a', 'l', 's', 'e']
        },
        JsonV::Int(n) => sp_ser_int(n),
        JsonV::Str(s) => seq!['"'] + sp_escape(s) + seq!['"'],
        JsonV::Arr(items) => seq!['['] + sp_ser_items(items) + seq![']'],
        JsonV::Obj(members) => seq!['{'] + sp_ser_members(members) + seq!['}'],
    }
}

/// The comma-separated renderings of array elements.
pub open spec fn sp_ser_items(items: Seq<JsonV>) -> Seq<char>
    decreases items,
{
    if items.len() == 0 {
        Seq::empty()
    } else if items.len() == 1 {
        sp_ser(items.first())
    } else {
        sp_ser(items.first()) + seq![','] + sp_ser_items(items.drop_first())
    }
}

/// The comma-separated renderings of object members.
pub open spec fn sp_ser_members(members: Seq<(Seq<char>, JsonV)>) -> Seq<char>
    decreases members,
{
    if members.len() == 0 {
        Seq::empty()
    } else {
        let head = seq!['"'] + sp_escape(members.first().0) + seq!['"', ':'] + sp_ser(
            members.first().1,
        );
        if members.len() == 1 {
            head
        } else {
            head + seq![','] + sp_ser_members(members.drop_first())
        }
    }
}

/// The character for hex digit `d`, `d < 16`, lower case.
fn hex_char(d: u32) -> (c: char)
    requires
        d < 16,
    ensures
        c == sp_hex_char(d as nat),
{
    if d < 10 {
        digit_char(d as u64)
    } else if d == 10 {
        'a'
    } else if d == 11 {
        'b'
    } else if d == 12 {
        'c'
    } else if d == 13 {
        'd'
    } else if d == 14 {
        'e'
    } else {
        'f'
    }
}

/// Append the escaped rendering of one string character.
fn push_escaped_char(out: &mut Vec<char>, c: char)
    ensures
        final(out)@ == old(out)@ + sp_escape_char(c),
{
    if c == '"' {
        out.push('\\');
        out.push('"');
    } else if c == '\\' {
        out.push('\\');
        out.push('\\');
    } else if c == '\n' {
        out.push('\\');
        out.push('n');
    } else if c == '\r' {
        out.push('\\');
        out.push('r');
    } else if c == '\t' {
        out.push('\\');
        out.push('t');
    } else if c == '\u{8}' {
        out.push('\\');
        out.push('b');
    } else if c == '\u{c}' {
        out.push('\\');
        out.push('f');
    } else if (c as u32) < 0x20 {
        out.push('\\');
        out.push('u');
        out.push('0');
        out.push('0');
        let hi = hex_char(c as u32 / 16);
        out.push(hi);
        let lo = hex_char(c as u32 % 16);
        out.push(lo);
    } else {
        out.push(c);
    }
    proof {
        assert(out@ =~= old(out)@ + sp_escape_char(c));
    }
}

/// Append the escaped rendering of a string body.
fn push_escaped(out: &mut Vec<char>, s: &str)
    ensures
        final(out)@ == old(out)@ + sp_escape(s@),
{
    let n = s.unicode_len();
    let mut i: usize = 0;
    while i < n
        invariant
            n == s@.len(),
            i <= n,
            out@ == old(out)@ + sp_escape(s@.take(i as int)),
        decreases n - i,
    {
        let c = s.get_char(i);
        push_escaped_char(out, c);
        proof {
            assert(s@.take(i + 1) =~= s@.take(i as int) + seq![s@[i as int]]);
            lemma_escape_append(s@.take(i as int), seq![s@[i as int]]);
            assert(sp_escape(seq![s@[i as int]].drop_first()) =~= Seq::<char>::empty());
            assert(sp_escape(seq![s@[i as int]]) =~= sp_escape_char(s@[i as int]));
            assert(old(out)@ + sp_escape(s@.take(i as int)) + sp_escape_char(s@[i as int])
                =~= old(out)@ + sp_escape(s@.take(i + 1)));
        }
        i = i + 1;
    }
    proof {
        assert(s@.take(n as int) =~= s@);
    }
}

/// Append the decimal rendering of an integer.
fn push_int(out: &mut Vec<char>, n: i64)
    ensures
        final(out)@ == old(out)@ + sp_ser_int(n as int),
{
    if n < 0 {
        out.push('-');
        let m: u64 = if n == i64::MIN {
            0x8000_0000_0000_0000u64
        } else {
            (-n) as u64
        };
        push_u64_dec(out, m);
        proof {
            assert(out@ =~= old(out)@ + sp_ser_int(n as int));
        }
    } else {
        push_u64_dec(out, n as u64);
    }
}

/// Append the canonical text of a document.
pub fn write_json(j: &Json, out: &mut Vec<char>)
    ensures
        final(out)@ == old(out)@ + sp_ser(j@),
    decreases *j,
{
    match j {
        Json::Null => {
            out.push('n');
            out.push('u');
            out.push('l');
            out.push('l');
            proof {
                assert(out@ =~= old(out)@ + sp_ser(j@));
            }
        },
        Json::Bool(b) => {
            if *b {
                out.push('t');
                out.push('r');
                out.push('u');
                out.push('e');
            } else {
                out.push('f');
                out.push('a');
                out.push('l');
                out.push('s');
                out.push('e');
            }
            proof {
                assert(out@ =~= old(out)@ + sp_ser(j@));
            }
        },
        Json::Int(n) => {
            push_int(out, *n);
        },
        Json::Str(s) => {
            out.push('"');
            push_escaped(out, s.as_str());
            out.push('"');
            proof {
                assert(out@ =~= old(out)@ + sp_ser(j@));
            }
        },
        Json::Arr(items) => {
            out.push('[');
            write_items(items, 0, out);
            out.push(']');
            proof {
                assert(json_view_seq(items@).skip(0) =~= json_view_seq(items@));
                assert(out@ =~= old(out)@ + sp_ser(j@));
            }
        },
        Json::Obj(members) => {
            out.push('{');
            write_members(members, 0, out);
            out.push('}');
            proof {
                assert(json_view_members(members@).skip(0) =~= json_view_members(members@));
                assert(out@ =~= old(out)@ + sp_ser(j@));
            }
        },
    }
}

/// Append the renderings of the array elements from `from` on,
/// comma-separated.
fn write_items(items: &Vec<Json>, from: usize, out: &mut Vec<char>)
    requires
        from <= items@.len(),
    ensures
        final(out)@ == old(out)@ + sp_ser_items(json_view_seq(items@).skip(from as int)),
    decreases *items, items@.len() - from,
{
    proof {
        lemma_view_seq_len(items@);
    }
    if from < items.len() {
        let ghost tail = json_view_seq(items@).skip(from as int);
        proof {
            assert(tail.len() == items@.len() - from);
            assert(tail.first() == json_view_seq(items@)[from as int]);
            assert(tail.first() == json_view(items@[from as int]));
        }
        write_json(&items[from], out);
        if from + 1 < items.len() {
            out.push(',');
            write_items(items, from + 1, out);
            proof {
                assert(tail.drop_first() =~= json_view_seq(items@).skip(from as int + 1));
                assert(out@ =~= old(out)@ + sp_ser_items(tail));
            }
        } else {
            proof {
                assert(tail.len() == 1);
                assert(out@ =~= old(out)@ + sp_ser_items(tail));
            }
        }
    } else {
        proof {
            assert(json_view_seq(items@).skip(from as int).len() == 0);
        }
    }
}

/// Append the renderings of the object members from `from` on,
/// comma-separated.
fn write_members(members: &Vec<(String, Json)>, from: usize, out: &mut Vec<char>)
    requires
        from <= members@.len(),
    ensures
        final(out)@ == old(out)@ + sp_ser_members(json_view_members(members@).skip(from as int)),
    decreases *members, members@.len() - from,
{
    proof {
        lemma_view_members_len(members@);
    }
    if from < members.len() {
        let ghost tail = json_view_members(members@).skip(from as int);
        proof {
            assert(tail.len() == members@.len() - from);
            assert(tail.first() == json_view_members(members@)[from as int]);
            assert(tail.first() == (members@[from as int].0@, json_view(members@[from as int].1)));
        }
        out.push('"');
        push_escaped(out, members[from].0.as_str());
        out.push('"');
        out.push(':');
        write_json(&members[from].1, out);
        if from + 1 < members.len() {
            out.push(',');
            write_members(members, from + 1, out);
            proof {
                assert(tail.drop_first() =~= json_view_members(members@).skip(from as int + 1));
                assert(out@ =~= old(out)@ + sp_ser_members(tail));
            }
        } else {
            proof {
                assert(tail.len() == 1);
                assert(out@ =~= old(out)@ + sp_ser_members(tail));
            }
        }
    } else {
        proof {
            assert(json_view_members(members@).skip(from as int).len() == 0);
        }
    }
}

/// The canonical text of a document, as a `String`.
pub fn json_to_string(j: &Json) -> (s: String)
    ensures
        s@ == sp_ser(j@),
{
    let mut out: Vec<char> = Vec::new();
    write_json(j, &mut out);
    chars_to_string(&out)
}

} // verus!
