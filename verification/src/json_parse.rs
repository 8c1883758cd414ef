//! Parsing of JSON text into [`Json`] documents.
//!
//! The grammar is defined once, by the `sp_p_*` specification functions: a
//! recursive-descent reading of the document grammar over a character
//! sequence.  Each function takes the position of the first character of
//! its construct and yields the parsed value together with `extra`, the
//! count of characters consumed beyond that first one (every construct
//! consumes at least one character, which is what grounds termination).
//! The executable parser mirrors those functions one to one and is proved
//! to return exactly what they describe.
//!
//! Numbers must be integers fitting the signed 64-bit range; string
//! escapes are the standard short ones plus `\uXXXX` for characters of the
//! basic plane that are not surrogates.

use crate::json::{json_view, json_view_members, json_view_seq, Json, JsonV};
use crate::text::{chars_to_string, sp_digit_val, sp_is_digit, str_to_chars};
use vstd::prelude::*;

verus! {

/// Characters the grammar treats as insignificant whitespace.
pub open spec fn sp_ws_char(c: char) -> bool {
    c == ' ' || c == '\t' || c == '\n' || c == '\r'
}

/// Every character from `i` to the end is whitespace.
pub open spec fn sp_all_ws_from(s: Seq<char>, i: int) -> bool {
    forall|j: int| i <= j < s.len() ==> sp_ws_char(s[j])
}

/// How much input is left at position `i`; the termination measure of the
/// parser.
pub open spec fn sp_rem(s: Seq<char>, i: int) -> int {
    if 0 <= i <= s.len() {
        s.len() - i
    } else {
        0
    }
}

/// The character a short escape stands for, if the letter is one.
pub open spec fn sp_unescape(e: char) -> Option<char> {
    if e == '"' {
        Some('"')
    } else if e == '\\' {
        Some('\\')
    } else if e == '/' {
        Some('/')
    } else if e == 'b' {
        Some('\u{8}')
    } else if e == 'f' {
        Some('\u{c}')
    } else if e == 'n' {
        Some('\n')
    } else if e == 'r' {
        Some('\r')
    } else if e == 't' {
        Some('\t')
    } else {
        None
    }
}

/// The value of a hexadecimal digit character, if it is one.
pub open spec fn sp_hex_val(c: char) -> Option<nat> {
    if sp_is_digit(c) {
        Some(sp_digit_val(c))
    } else if c == 'a' || c == 'A' {
        Some(10nat)
    } else if c == 'b' || c == 'B' {
        Some(11nat)
    } else if c == 'c' || c == 'C' {
        Some(12nat)
    } else if c == 'd' || c == 'D' {
        Some(13nat)
    } else if c == 'e' || c == 'E' {
        Some(14nat)
    } else if c == 'f' || c == 'F' {
        Some(15nat)
    } else {
        None
    }
}

/// The value of the four hexadecimal digits at `i`, if all four are ones.
pub open spec fn sp_hex4(s: Seq<char>, i: int) -> Option<nat> {
    if 0 <= i && i + 3 < s.len() {
        match (sp_hex_val(s[i]), sp_hex_val(s[i + 1]), sp_hex_val(s[i + 2]), sp_hex_val(s[i + 3])) {
            (Some(a), Some(b), Some(c), Some(d)) => Some(a * 4096 + b * 256 + c * 16 + d),
            _ => None,
        }
    } else {
        None
    }
}

/// Whether a `\uXXXX` code names a character (it is not a surrogate).
pub open spec fn sp_scalar(code: nat) -> bool {
    code < 0xD800 || 0xE000 <= code
}

/// The body of a string literal starting just after the opening quote:
/// yields the characters up to the closing quote, which is consumed.
pub open spec fn sp_p_str(s: Seq<char>, i: int) -> Option<(Seq<char>, nat)>
    decreases sp_rem(s, i), 0int,
{
    if i < 0 || i >= s.len() {
        None
    } else {
        let c = s[i];
        if c == '"' {
            Some((Seq::empty(), 0nat))
        } else if c == '\\' {
            if i + 1 >= s.len() {
                None
            } else if s[i + 1] == 'u' {
                match sp_hex4(s, i + 2) {
                    Some(code) => if sp_scalar(code) {
                        match sp_p_str(s, i + 6) {
                            Some((t, x)) => Some((seq![code as char] + t, (x + 6) as nat)),
                            None => None,
                        }
                    } else {
                        None
                    },
                    None => None,
                }
            } else {
                match sp_unescape(s[i + 1]) {
                    Some(c2) => match sp_p_str(s, i + 2) {
                        Some((t, x)) => Some((seq![c2] + t, (x + 2) as nat)),
                        None => None,
                    },
                    None => None,
                }
            }
        } else if (c as u32) < 0x20 {
            None
        } else {
            match sp_p_str(s, i + 1) {
                Some((t, x)) => Some((seq![c] + t, (x + 1) as nat)),
                None => None,
            }
        }
    }
}

/// A run of digits starting at `i` folded onto `acc`, together with the
/// extra characters consumed beyond the first.
pub open spec fn sp_p_digits(s: Seq<char>, i: int, acc: nat) -> (nat, nat)
    decreases sp_rem(s, i), 0int,
{
    if i < 0 || i >= s.len() {
        (acc, 0nat)
    } else {
        let v2 = acc * 10 + sp_digit_val(s[i]);
        if i + 1 < s.len() && sp_is_digit(s[i + 1]) {
            let (v, x) = sp_p_digits(s, i + 1, v2);
            (v, (x + 1) as nat)
        } else {
            (v2, 0nat)
        }
    }
}

/// A single JSON value whose first character stands at `i`.
pub open spec fn sp_p_value(s: Seq<char>, i: int) -> Option<(JsonV, nat)>
    decreases sp_rem(s, i), 2int,
{
    if i < 0 || i >= s.len() {
        None
    } else {
        let c = s[i];
        if c == 'n' {
            if i + 3 < s.len() && s[i + 1] == 'u' && s[i + 2] == 'l' && s[i + 3] == 'l' {
                Some((JsonV::Null, 3nat))
            } else {
                None
            }
        } else if c == 't' {
            if i + 3 < s.len() && s[i + 1] == 'r' && s[i + 2] == 'u' && s[i + 3] == 'e' {
                Some((JsonV::Bool(true), 3nat))
            } else {
                None
            }
        } else if c == 'f' {
            if i + 4 < s.len() && s[i + 1] == 'a' && s[i + 2] == 'l' && s[i + 3] == 's' && s[i + 4]
                == 'e' {
                Some((JsonV::Bool(false), 4nat))
            } else {
                None
            }
        } else if c == '"' {
            match sp_p_str(s, i + 1) {
                Some((t, x)) => Some((JsonV::Str(t), (x + 1) as nat)),
                None => None,
            }
        } else if c == '-' {
            if i + 1 < s.len() && sp_is_digit(s[i + 1]) && !(s[i + 1] == '0' && i + 2 < s.len()
                && sp_is_digit(s[i + 2])) {
                let (v, x) = sp_p_digits(s, i + 1, 0);
                if v <= i64::MAX {
                    Some((JsonV::Int(-(v as int)), (x + 1) as nat))
                } else {
                    None
                }
            } else {
                None
            }
        } else if sp_is_digit(c) {
            if c == '0' && i + 1 < s.len() && sp_is_digit(s[i + 1]) {
                None
            } else {
                let (v, x) = sp_p_digits(s, i, 0);
                if v <= i64::MAX {
                    Some((JsonV::Int(v as int), x))
                } else {
                    None
                }
            }
        } else if c == '[' {
            match sp_p_elems(s, i + 1, true) {
                Some((vs, x)) => Some((JsonV::Arr(vs), (x + 1) as nat)),
                None => None,
            }
        } else if c == '{' {
            match sp_p_membs(s, i + 1, true) {
                Some((ms, x)) => Some((JsonV::Obj(ms), (x + 1) as nat)),
                None => None,
            }
        } else {
            None
        }
    }
}

/// A value possibly preceded by whitespace.
pub open spec fn sp_p_ws_value(s: Seq<char>, i: int) -> Option<(JsonV, nat)>
    decreases sp_rem(s, i), 3int,
{
    if i < 0 || i >= s.len() {
        None
    } else if sp_ws_char(s[i]) {
        match sp_p_ws_value(s, i + 1) {
            Some((v, x)) => Some((v, (x + 1) as nat)),
            None => None,
        }
    } else {
        sp_p_value(s, i)
    }
}

/// The elements of an array from just after `[` or `,` up to and including
/// the closing `]`; `allow_close` is whether `]` may come at once (it may
/// not directly after a comma).
pub open spec fn sp_p_elems(s: Seq<char>, i: int, allow_close: bool) -> Option<
    (Seq<JsonV>, nat),
>
    decreases sp_rem(s, i), 3int,
{
    if i < 0 || i >= s.len() {
        None
    } else if sp_ws_char(s[i]) {
        match sp_p_elems(s, i + 1, allow_close) {
            Some((vs, x)) => Some((vs, (x + 1) as nat)),
            None => None,
        }
    } else if s[i] == ']' && allow_close {
        Some((Seq::empty(), 0nat))
    } else {
        match sp_p_value(s, i) {
            Some((v, x)) => match sp_p_elems_tail(s, i + x + 1) {
                Some((vs, x2)) => Some((seq![v] + vs, (x + x2 + 1) as nat)),
                None => None,
            },
            None => None,
        }
    }
}

/// After an array element: whitespace, then either `,` and further
/// elements or the closing `]`.
pub open spec fn sp_p_elems_tail(s: Seq<char>, i: int) -> Option<(Seq<JsonV>, nat)>
    decreases sp_rem(s, i), 0int,
{
    if i < 0 || i >= s.len() {
        None
    } else if sp_ws_char(s[i]) {
        match sp_p_elems_tail(s, i + 1) {
            Some((vs, x)) => Some((vs, (x + 1) as nat)),
            None => None,
        }
    } else if s[i] == ']' {
        Some((Seq::empty(), 0nat))
    } else if s[i] == ',' {
        match sp_p_elems(s, i + 1, false) {
            Some((vs, x)) => Some((vs, (x + 1) as nat)),
            None => None,
        }
    } else {
        None
    }
}

/// After an object key: whitespace, `:`, then the member's value.
pub open spec fn sp_p_colon_val(s: Seq<char>, i: int) -> Option<(JsonV, nat)>
    decreases sp_rem(s, i), 1int,
{
    if i < 0 || i >= s.len() {
        None
    } else if sp_ws_char(s[i]) {
        match sp_p_colon_val(s, i + 1) {
            Some((v, x)) => Some((v, (x + 1) as nat)),
            None => None,
        }
    } else if s[i] == ':' {
        match sp_p_ws_value(s, i + 1) {
            Some((v, x)) => Some((v, (x + 1) as nat)),
            None => None,
        }
    } else {
        None
    }
}

/// The members of an object from just after `{` or `,` up to and
/// including the closing `}`; `allow_close` is whether `}` may come at
/// once (it may not directly after a comma).
pub open spec fn sp_p_membs(s: Seq<char>, i: int, allow_close: bool) -> Option<
    (Seq<(Seq<char>, JsonV)>, nat),
>
    decreases sp_rem(s, i), 3int,
{
    if i < 0 || i >= s.len() {
        None
    } else if sp_ws_char(s[i]) {
        match sp_p_membs(s, i + 1, allow_close) {
            Some((ms, x)) => Some((ms, (x + 1) as nat)),
            None => None,
        }
    } else if s[i] == '}' && allow_close {
        Some((Seq::empty(), 0nat))
    } else if s[i] == '"' {
        match sp_p_str(s, i + 1) {
            Some((k, x1)) => match sp_p_colon_val(s, i + x1 + 2) {
                Some((v, x2)) => match sp_p_membs_tail(s, i + x1 + x2 + 3) {
                    Some((ms, x3)) => Some((seq![(k, v)] + ms, (x1 + x2 + x3 + 3) as nat)),
                    None => None,
                },
                None => None,
            },
            None => None,
        }
    } else {
        None
    }
}

/// After an object member: whitespace, then either `,` and further
/// members or the closing `}`.
pub open spec fn sp_p_membs_tail(s: Seq<char>, i: int) -> Option<(Seq<(Seq<char>, JsonV)>, nat)>
    decreases sp_rem(s, i), 0int,
{
    if i < 0 || i >= s.len() {
        None
    } else if sp_ws_char(s[i]) {
        match sp_p_membs_tail(s, i + 1) {
            Some((ms, x)) => Some((ms, (x + 1) as nat)),
            None => None,
        }
    } else if s[i] == '}' {
        Some((Seq::empty(), 0nat))
    } else if s[i] == ',' {
        match sp_p_membs(s, i + 1, false) {
            Some((ms, x)) => Some((ms, (x + 1) as nat)),
            None => None,
        }
    } else {
        None
    }
}

/// The document a complete text denotes: one value, surrounded by nothing
/// but whitespace.
pub open spec fn sp_parse_json(s: Seq<char>) -> Option<JsonV> {
    match sp_p_ws_value(s, 0) {
        Some((v, x)) => if sp_all_ws_from(s, x as int + 1) {
            Some(v)
        } else {
            None
        },
        None => None,
    }
}

/// Whether `c` is a whitespace character of the grammar.
fn is_ws(c: char) -> (r: bool)
    ensures
        r == sp_ws_char(c),
{
    c == ' ' || c == '\t' || c == '\n' || c == '\r'
}

/// The character a short escape letter stands for.
fn unescape_char(e: char) -> (r: Option<char>)
    ensures
        r == sp_unescape(e),
{
    if e == '"' {
        Some('"')
    } else if e == '\\' {
        Some('\\')
    } else if e == '/' {
        Some('/')
    } else if e == 'b' {
        Some('\u{8}')
    } else if e == 'f' {
        Some('\u{c}')
    } else if e == 'n' {
        Some('\n')
    } else if e == 'r' {
        Some('\r')
    } else if e == 't' {
        Some('\t')
    } else {
        None
    }
}

/// The value of a hexadecimal digit character.
fn hex_val(c: char) -> (r: Option<u32>)
    ensures
        match r {
            Some(v) => sp_hex_val(c) == Some(v as nat) && v < 16,
            None => sp_hex_val(c) is None,
        },
{
    if c >= '0' && c <= '9' {
        Some(c as u32 - '0' as u32)
    } else if c == 'a' || c == 'A' {
        Some(10)
    } else if c == 'b' || c == 'B' {
        Some(11)
    } else if c == 'c' || c == 'C' {
        Some(12)
    } else if c == 'd' || c == 'D' {
        Some(13)
    } else if c == 'e' || c == 'E' {
        Some(14)
    } else if c == 'f' || c == 'F' {
        Some(15)
    } else {
        None
    }
}

/// The value of the four hexadecimal digits at `i`.
fn p_hex4(s: &Vec<char>, i: usize) -> (r: Option<u32>)
    ensures
        match r {
            Some(v) => sp_hex4(s@, i as int) == Some(v as nat) && v <= 0xFFFF,
            None => sp_hex4(s@, i as int) is None,
        },
{
    let n = s.len();
    if i >= n || n - i < 4 {
        return None;
    }
    match (hex_val(s[i]), hex_val(s[i + 1]), hex_val(s[i + 2]), hex_val(s[i + 3])) {
        (Some(a), Some(b), Some(c), Some(d)) => Some(a * 4096 + b * 256 + c * 16 + d),
        _ => None,
    }
}

/// Relies on `char::from_u32`: for a code that is neither a surrogate nor
/// beyond the Unicode range it yields the character with exactly that
/// code point.
#[verifier::external_body]
fn char_from_code(code: u32) -> (c: char)
    requires
        code < 0xD800 || (0xE000 <= code && code <= 0x10FFFF),
    ensures
        c == code as char,
{
    char::from_u32(code).unwrap_or('\u{fffd}')
}

/// Read a string body starting just after the opening quote, through the
/// closing quote.
fn p_str(s: &Vec<char>, i: usize) -> (r: Option<(Vec<char>, usize)>)
    ensures
        r is None ==> sp_p_str(s@, i as int) is None,
        r matches Some(p) ==> sp_p_str(s@, i as int) matches Some(q) && p.0@ == q.0 && p.1 == i
            + q.1 + 1 && p.1 <= s@.len(),
{
    let n = s.len();
    let mut acc: Vec<char> = Vec::new();
    let mut cur = i;
    loop
        invariant
            n == s@.len(),
            i <= cur,
            match sp_p_str(s@, cur as int) {
                Some(q2) => sp_p_str(s@, i as int) matches Some(q) && q.0 == acc@ + q2.0 && i
                    + q.1 == cur + q2.1,
                None => sp_p_str(s@, i as int) is None,
            },
        decreases n - cur,
    {
        if cur >= n {
            return None;
        }
        let c = s[cur];
        if c == '"' {
            proof {
                assert(acc@ + Seq::<char>::empty() =~= acc@);
            }
            return Some((acc, cur + 1));
        } else if c == '\\' {
            if cur + 1 >= n {
                return None;
            }
            let e = s[cur + 1];
            if e == 'u' {
                match p_hex4(s, cur + 2) {
                    None => {
                        return None;
                    },
                    Some(code) => {
                        if code < 0xD800 || 0xE000 <= code {
                            let c2 = char_from_code(code);
                            proof {
                                if let Some(q2) = sp_p_str(s@, cur as int + 6) {
                                    assert(acc@ + (seq![c2] + q2.0) =~= acc@.push(c2) + q2.0);
                                }
                            }
                            acc.push(c2);
                            cur = cur + 6;
                        } else {
                            return None;
                        }
                    },
                }
            } else {
                match unescape_char(e) {
                    None => {
                        return None;
                    },
                    Some(c2) => {
                        proof {
                            if let Some(q2) = sp_p_str(s@, cur as int + 2) {
                                assert(acc@ + (seq![c2] + q2.0) =~= acc@.push(c2) + q2.0);
                            }
                        }
                        acc.push(c2);
                        cur = cur + 2;
                    },
                }
            }
        } else if (c as u32) < 0x20 {
            return None;
        } else {
            proof {
                if let Some(q2) = sp_p_str(s@, cur as int + 1) {
                    assert(acc@ + (seq![c] + q2.0) =~= acc@.push(c) + q2.0);
                }
            }
            acc.push(c);
            cur = cur + 1;
        }
    }
}

/// Folding digits never shrinks the accumulator.
proof fn lemma_p_digits_ge_acc(s: Seq<char>, i: int, acc: nat)
    ensures
        sp_p_digits(s, i, acc).0 >= acc,
    decreases sp_rem(s, i), 0int,
{
    if 0 <= i < s.len() {
        let v2 = (acc * 10 + sp_digit_val(s[i])) as nat;
        if i + 1 < s.len() && sp_is_digit(s[i + 1]) {
            lemma_p_digits_ge_acc(s, i + 1, v2);
        }
    }
}

/// Read a run of digits starting at `i`; nothing is returned when the
/// value exceeds the signed 64-bit range.
fn p_digits(s: &Vec<char>, i: usize) -> (r: Option<(u64, usize)>)
    requires
        i < s@.len(),
        sp_is_digit(s@[i as int]),
    ensures
        r is None ==> sp_p_digits(s@, i as int, 0).0 > i64::MAX,
        r matches Some(p) ==> {
            let (v, x) = sp_p_digits(s@, i as int, 0);
            p.0 == v && v <= i64::MAX && p.1 == i + x + 1 && p.1 <= s@.len()
        },
{
    let n = s.len();
    let mut j = i;
    let mut acc: u64 = 0;
    loop
        invariant
            n == s@.len(),
            i <= j < n,
            sp_is_digit(s@[j as int]),
            acc <= i64::MAX,
            ({
                let (v, x) = sp_p_digits(s@, j as int, acc as nat);
                let (fv, fx) = sp_p_digits(s@, i as int, 0);
                fv == v && i + fx == j + x
            }),
        decreases n - j,
    {
        let c = s[j];
        let d = (c as u32 - '0' as u32) as u64;
        proof {
            assert(d == sp_digit_val(s@[j as int]));
        }
        if acc > (0x7fff_ffff_ffff_ffffu64 - d) / 10 {
            proof {
                let v2 = (acc * 10 + sp_digit_val(s@[j as int])) as nat;
                assert(v2 > i64::MAX);
                if j + 1 < s@.len() && sp_is_digit(s@[j as int + 1]) {
                    lemma_p_digits_ge_acc(s@, j as int + 1, v2);
                }
                assert(sp_p_digits(s@, j as int, acc as nat).0 >= v2);
            }
            return None;
        }
        acc = acc * 10 + d;
        if j + 1 < n {
            let c2 = s[j + 1];
            if c2 >= '0' && c2 <= '9' {
                j = j + 1;
                continue;
            }
        }
        return Some((acc, j + 1));
    }
}

/// Read one JSON value whose first character stands at `i`.
fn p_value(s: &Vec<char>, i: usize) -> (r: Option<(Json, usize)>)
    ensures
        r is None ==> sp_p_value(s@, i as int) is None,
        r matches Some(p) ==> sp_p_value(s@, i as int) matches Some(q) && p.0@ == q.0 && p.1 == i
            + q.1 + 1 && p.1 <= s@.len(),
    decreases sp_rem(s@, i as int), 2int,
{
    let n = s.len();
    if i >= n {
        return None;
    }
    let c = s[i];
    if c == 'n' {
        if n - i > 3 && s[i + 1] == 'u' && s[i + 2] == 'l' && s[i + 3] == 'l' {
            Some((Json::Null, i + 4))
        } else {
            None
        }
    } else if c == 't' {
        if n - i > 3 && s[i + 1] == 'r' && s[i + 2] == 'u' && s[i + 3] == 'e' {
            Some((Json::Bool(true), i + 4))
        } else {
            None
        }
    } else if c == 'f' {
        if n - i > 4 && s[i + 1] == 'a' && s[i + 2] == 'l' && s[i + 3] == 's' && s[i + 4] == 'e' {
            Some((Json::Bool(false), i + 5))
        } else {
            None
        }
    } else if c == '"' {
        match p_str(s, i + 1) {
            Some((chars, end)) => {
                let st = chars_to_string(&chars);
                Some((Json::Str(st), end))
            },
            None => None,
        }
    } else if c == '-' {
        if i + 1 < n && s[i + 1] >= '0' && s[i + 1] <= '9' && !(s[i + 1] == '0' && i + 2 < n && s[i
            + 2] >= '0' && s[i + 2] <= '9') {
            match p_digits(s, i + 1) {
                Some((u, end)) => Some((Json::Int(-(u as i64)), end)),
                None => None,
            }
        } else {
            None
        }
    } else if c >= '0' && c <= '9' {
        if c == '0' && i + 1 < n && s[i + 1] >= '0' && s[i + 1] <= '9' {
            None
        } else {
            match p_digits(s, i) {
                Some((u, end)) => Some((Json::Int(u as i64), end)),
                None => None,
            }
        }
    } else if c == '[' {
        match p_elems(s, i + 1, true) {
            Some((items, end)) => Some((Json::Arr(items), end)),
            None => None,
        }
    } else if c == '{' {
        match p_membs(s, i + 1, true) {
            Some((members, end)) => Some((Json::Obj(members), end)),
            None => None,
        }
    } else {
        None
    }
}

/// Read a value possibly preceded by whitespace.
fn p_ws_value(s: &Vec<char>, i: usize) -> (r: Option<(Json, usize)>)
    ensures
        r is None ==> sp_p_ws_value(s@, i as int) is None,
        r matches Some(p) ==> sp_p_ws_value(s@, i as int) matches Some(q) && p.0@ == q.0 && p.1
            == i + q.1 + 1 && p.1 <= s@.len(),
    decreases sp_rem(s@, i as int), 3int,
{
    let n = s.len();
    if i >= n {
        return None;
    }
    if is_ws(s[i]) {
        p_ws_value(s, i + 1)
    } else {
        p_value(s, i)
    }
}

/// Read array elements up to and including the closing bracket.
fn p_elems(s: &Vec<char>, i: usize, allow_close: bool) -> (r: Option<(Vec<Json>, usize)>)
    ensures
        r is None ==> sp_p_elems(s@, i as int, allow_close) is None,
        r matches Some(p) ==> sp_p_elems(s@, i as int, allow_close) matches Some(q)
            && json_view_seq(p.0@) == q.0 && p.1 == i + q.1 + 1 && p.1 <= s@.len(),
    decreases sp_rem(s@, i as int), 3int,
{
    let n = s.len();
    if i >= n {
        return None;
    }
    let c = s[i];
    if is_ws(c) {
        p_elems(s, i + 1, allow_close)
    } else if c == ']' && allow_close {
        let items: Vec<Json> = Vec::new();
        proof {
            assert(json_view_seq(items@) =~= Seq::<JsonV>::empty());
        }
        Some((items, i + 1))
    } else {
        match p_value(s, i) {
            None => None,
            Some((v, end1)) => {
                match p_elems_tail(s, end1) {
                    None => None,
                    Some((mut items, end2)) => {
                        proof {
                            if let Some(q2) = sp_p_elems_tail(s@, end1 as int) {
                                assert(items@.insert(0, v) =~= seq![v] + items@);
                                assert((seq![v] + items@).drop_first() =~= items@);
                                assert(json_view_seq(seq![v] + items@) =~= seq![json_view(v)]
                                    + json_view_seq(items@));
                            }
                        }
                        items.insert(0, v);
                        Some((items, end2))
                    },
                }
            },
        }
    }
}

/// Read what follows an array element: a comma and further elements, or
/// the closing bracket.
fn p_elems_tail(s: &Vec<char>, i: usize) -> (r: Option<(Vec<Json>, usize)>)
    ensures
        r is None ==> sp_p_elems_tail(s@, i as int) is None,
        r matches Some(p) ==> sp_p_elems_tail(s@, i as int) matches Some(q) && json_view_seq(p.0@)
            == q.0 && p.1 == i + q.1 + 1 && p.1 <= s@.len(),
    decreases sp_rem(s@, i as int), 0int,
{
    let n = s.len();
    if i >= n {
        return None;
    }
    let c = s[i];
    if is_ws(c) {
        p_elems_tail(s, i + 1)
    } else if c == ']' {
        let items: Vec<Json> = Vec::new();
        proof {
            assert(json_view_seq(items@) =~= Seq::<JsonV>::empty());
        }
        Some((items, i + 1))
    } else if c == ',' {
        p_elems(s, i + 1, false)
    } else {
        None
    }
}

/// Read what follows an object key: a colon and the member value.
fn p_colon_val(s: &Vec<char>, i: usize) -> (r: Option<(Json, usize)>)
    ensures
        r is None ==> sp_p_colon_val(s@, i as int) is None,
        r matches Some(p) ==> sp_p_colon_val(s@, i as int) matches Some(q) && p.0@ == q.0 && p.1
            == i + q.1 + 1 && p.1 <= s@.len(),
    decreases sp_rem(s@, i as int), 1int,
{
    let n = s.len();
    if i >= n {
        return None;
    }
    let c = s[i];
    if is_ws(c) {
        p_colon_val(s, i + 1)
    } else if c == ':' {
        p_ws_value(s, i + 1)
    } else {
        None
    }
}

/// Read object members up to and including the closing brace.
fn p_membs(s: &Vec<char>, i: usize, allow_close: bool) -> (r: Option<
    (Vec<(String, Json)>, usize),
>)
    ensures
        r is None ==> sp_p_membs(s@, i as int, allow_close) is None,
        r matches Some(p) ==> sp_p_membs(s@, i as int, allow_close) matches Some(q)
            && json_view_members(p.0@) == q.0 && p.1 == i + q.1 + 1 && p.1 <= s@.len(),
    decreases sp_rem(s@, i as int), 3int,
{
    let n = s.len();
    if i >= n {
        return None;
    }
    let c = s[i];
    if is_ws(c) {
        p_membs(s, i + 1, allow_close)
    } else if c == '}' && allow_close {
        let members: Vec<(String, Json)> = Vec::new();
        proof {
            assert(json_view_members(members@) =~= Seq::<(Seq<char>, JsonV)>::empty());
        }
        Some((members, i + 1))
    } else if c == '"' {
        match p_str(s, i + 1) {
            None => None,
            Some((kchars, end1)) => {
                let key = chars_to_string(&kchars);
                match p_colon_val(s, end1) {
                    None => None,
                    Some((v, end2)) => {
                        match p_membs_tail(s, end2) {
                            None => None,
                            Some((mut members, end3)) => {
                                proof {
                                    assert(members@.insert(0, (key, v)) =~= seq![(key, v)]
                                        + members@);
                                    assert((seq![(key, v)] + members@).drop_first() =~= members@);
                                    assert(json_view_members(seq![(key, v)] + members@)
                                        =~= seq![(key@, json_view(v))] + json_view_members(
                                        members@,
                                    ));
                                }
                                members.insert(0, (key, v));
                                Some((members, end3))
                            },
                        }
                    },
                }
            },
        }
    } else {
        None
    }
}

/// Read what follows an object member: a comma and further members, or
/// the closing brace.
fn p_membs_tail(s: &Vec<char>, i: usize) -> (r: Option<(Vec<(String, Json)>, usize)>)
    ensures
        r is None ==> sp_p_membs_tail(s@, i as int) is None,
        r matches Some(p) ==> sp_p_membs_tail(s@, i as int) matches Some(q) && json_view_members(
            p.0@,
        ) == q.0 && p.1 == i + q.1 + 1 && p.1 <= s@.len(),
    decreases sp_rem(s@, i as int), 0int,
{
    let n = s.len();
    if i >= n {
        return None;
    }
    let c = s[i];
    if is_ws(c) {
        p_membs_tail(s, i + 1)
    } else if c == '}' {
        let members: Vec<(String, Json)> = Vec::new();
        proof {
            assert(json_view_members(members@) =~= Seq::<(Seq<char>, JsonV)>::empty());
        }
        Some((members, i + 1))
    } else if c == ',' {
        p_membs(s, i + 1, false)
    } else {
        None
    }
}

/// Parse a complete JSON text: one value surrounded by nothing but
/// whitespace.
pub fn parse_json(text: &str) -> (r: Option<Json>)
    ensures
        r is None ==> sp_parse_json(text@) is None,
        r matches Some(j) ==> sp_parse_json(text@) == Some(j@),
{
    let chars = str_to_chars(text);
    match p_ws_value(&chars, 0) {
        None => None,
        Some((j, end)) => {
            let n = chars.len();
            let mut k = end;
            while k < n
                invariant
                    n == chars@.len(),
                    chars@ == text@,
                    end <= k <= n,
                    sp_p_ws_value(text@, 0) matches Some(q) && q.0 == j@ && end == q.1 + 1,
                    forall|m: int| end <= m < k ==> sp_ws_char(text@[m]),
                decreases n - k,
            {
                if !is_ws(chars[k]) {
                    proof {
                        assert(!sp_all_ws_from(text@, end as int)) by {
                            if sp_all_ws_from(text@, end as int) {
                                assert(sp_ws_char(text@[k as int]));
                            }
                        }
                    }
                    return None;
                }
                k = k + 1;
            }
            Some(j)
        },
    }
}

} // verus!
