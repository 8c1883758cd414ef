//! Text utilities shared across the gateway: verified string comparison and
//! conversion, decimal formatting, and the defensive offset parsing the
//! remote adapters apply to string-encoded numbers.

use vstd::prelude::*;

verus! {

/// Turn a character vector back into a `String`.
/// Relies on `core::iter::Iterator::collect`: collecting `char`s yields the
/// string of exactly those characters in order.
#[verifier::external_body]
pub fn chars_to_string(v: &Vec<char>) -> (s: String)
    ensures
        s@ == v@,
{
    v.iter().collect()
}

/// Copy the characters of a string slice into a vector.
pub fn str_to_chars(s: &str) -> (v: Vec<char>)
    ensures
        v@ == s@,
{
    let n = s.unicode_len();
    let mut v: Vec<char> = Vec::new();
    let mut i: usize = 0;
    while i < n
        invariant
            n == s@.len(),
            i <= n,
            v@ =~= s@.take(i as int),
        decreases n - i,
    {
        v.push(s.get_char(i));
        proof {
            assert(v@ =~= s@.take(i + 1));
        }
        i = i + 1;
    }
    proof {
        assert(s@.take(n as int) =~= s@);
    }
    v
}

/// Character-wise string equality.
pub fn str_eq(a: &str, b: &str) -> (r: bool)
    ensures
        r == (a@ == b@),
{
    let n = a.unicode_len();
    let m = b.unicode_len();
    if n != m {
        return false;
    }
    let mut i: usize = 0;
    while i < n
        invariant
            n == a@.len(),
            n == b@.len(),
            i <= n,
            forall|j: int| 0 <= j < i ==> a@[j] == b@[j],
        decreases n - i,
    {
        if a.get_char(i) != b.get_char(i) {
            return false;
        }
        i = i + 1;
    }
    proof {
        assert(a@ =~= b@);
    }
    true
}

/// Append the characters of a string slice to a character vector.
pub fn push_str_chars(out: &mut Vec<char>, s: &str)
    ensures
        final(out)@ == old(out)@ + s@,
{
    let n = s.unicode_len();
    let mut i: usize = 0;
    while i < n
        invariant
            n == s@.len(),
            i <= n,
            out@ =~= old(out)@ + s@.take(i as int),
        decreases n - i,
    {
        out.push(s.get_char(i));
        proof {
            assert(old(out)@ + s@.take(i as int) + seq![s@[i as int]] =~= old(out)@ + s@.take(
                i + 1,
            ));
        }
        i = i + 1;
    }
    proof {
        assert(s@.take(n as int) =~= s@);
    }
}

/// The character for a single decimal digit.
pub open spec fn sp_digit_char(d: nat) -> char {
    if d == 0 {
        '0'
    } else if d == 1 {
        '1'
    } else if d == 2 {
        '2'
    } else if d == 3 {
        '3'
    } else if d == 4 {
        '4'
    } else if d == 5 {
        '5'
    } else if d == 6 {
        '6'
    } else if d == 7 {
        '7'
    } else if d == 8 {
        '8'
    } else {
        '9'
    }
}

/// The decimal rendering of a natural number, without leading zeros.
pub open spec fn sp_dec(n: nat) -> Seq<char>
    decreases n,
{
    if n < 10 {
        seq![sp_digit_char(n)]
    } else {
        sp_dec(n / 10).push(sp_digit_char(n % 10))
    }
}

/// Append the decimal rendering of `n` to a character vector.
pub fn push_u64_dec(out: &mut Vec<char>, n: u64)
    ensures
        final(out)@ == old(out)@ + sp_dec(n as nat),
    decreases n,
{
    if n < 10 {
        let c = digit_char(n);
        out.push(c);
        proof {
            assert(out@ =~= old(out)@ + sp_dec(n as nat));
        }
    } else {
        push_u64_dec(out, n / 10);
        let c = digit_char(n % 10);
        out.push(c);
        proof {
            assert(out@ =~= old(out)@ + sp_dec(n as nat));
        }
    }
}

/// The character for digit `d`, `d < 10`.
pub fn digit_char(d: u64) -> (c: char)
    requires
        d < 10,
    ensures
        c == sp_digit_char(d as nat),
{
    if d == 0 {
        '0'
    } else if d == 1 {
        '1'
    } else if d == 2 {
        '2'
    } else if d == 3 {
        '3'
    } else if d == 4 {
        '4'
    } else if d == 5 {
        '5'
    } else if d == 6 {
        '6'
    } else if d == 7 {
        '7'
    } else if d == 8 {
        '8'
    } else {
        '9'
    }
}

/// Whether `c` is a decimal digit.
pub open spec fn sp_is_digit(c: char) -> bool {
    '0' <= c && c <= '9'
}

/// The numeric value of a digit character.
pub open spec fn sp_digit_val(c: char) -> nat {
    (c as nat - '0' as nat) as nat
}

/// Whether every character of `s` is a decimal digit.
pub open spec fn sp_all_digits(s: Seq<char>) -> bool {
    forall|i: int| 0 <= i < s.len() ==> sp_is_digit(s[i])
}

/// The value of a digit sequence folded left to right onto `acc`.
pub open spec fn sp_fold_digits(s: Seq<char>, acc: nat) -> nat
    decreases s.len(),
{
    if s.len() == 0 {
        acc
    } else {
        sp_fold_digits(s.drop_first(), acc * 10 + sp_digit_val(s.first()))
    }
}

/// The numeric value of a digit sequence.
pub open spec fn sp_digits_val(s: Seq<char>) -> nat {
    sp_fold_digits(s, 0)
}

/// Folding digits never shrinks the accumulator.
pub proof fn lemma_fold_digits_ge_acc(s: Seq<char>, acc: nat)
    ensures
        sp_fold_digits(s, acc) >= acc,
    decreases s.len(),
{
    if s.len() > 0 {
        lemma_fold_digits_ge_acc(s.drop_first(), acc * 10 + sp_digit_val(s.first()));
    }
}

/// The defensive reading the remote adapters give to a string-encoded
/// offset: an optional `+` sign followed by decimal digits whose value fits
/// 32 bits yields that value; anything else yields zero.
pub open spec fn sp_parse_offset(s: Seq<char>) -> nat {
    let t = if s.len() > 0 && s.first() == '+' {
        s.drop_first()
    } else {
        s
    };
    if t.len() > 0 && sp_all_digits(t) && sp_digits_val(t) <= u32::MAX {
        sp_digits_val(t)
    } else {
        0
    }
}

/// Read a string-encoded offset, defaulting to zero when it cannot be read.
pub fn parse_offset(s: &str) -> (r: usize)
    ensures
        r == sp_parse_offset(s@),
        r <= u32::MAX,
{
    let n = s.unicode_len();
    let start: usize = if n > 0 && s.get_char(0) == '+' {
        1
    } else {
        0
    };
    let ghost t = if s@.len() > 0 && s@.first() == '+' {
        s@.drop_first()
    } else {
        s@
    };
    proof {
        assert(t =~= s@.skip(start as int));
    }
    if n == start {
        return 0;
    }
    let mut acc: u32 = 0;
    let mut i: usize = start;
    while i < n
        invariant
            n == s@.len(),
            start <= i <= n,
            start < n,
            start == (if s@.len() > 0 && s@.first() == '+' { 1int } else { 0int }),
            t == (if s@.len() > 0 && s@.first() == '+' { s@.drop_first() } else { s@ }),
            t =~= s@.skip(start as int),
            acc <= u32::MAX,
            forall|j: int| start <= j < i ==> sp_is_digit(s@[j]),
            sp_fold_digits(t, 0) == sp_fold_digits(s@.skip(i as int), acc as nat),
        decreases n - i,
    {
        let c = s.get_char(i);
        if c < '0' || c > '9' {
            proof {
                assert(t[i - start] == s@[i as int]);
                assert(!sp_all_digits(t)) by {
                    if sp_all_digits(t) {
                        assert(sp_is_digit(t[i - start]));
                    }
                }
            }
            return 0;
        }
        let d = c as u32 - '0' as u32;
        proof {
            assert(s@.skip(i as int).first() == s@[i as int]);
            assert(s@.skip(i as int).drop_first() =~= s@.skip(i as int + 1));
            assert(sp_fold_digits(s@.skip(i as int), acc as nat) == sp_fold_digits(
                s@.skip(i as int + 1),
                (acc * 10 + sp_digit_val(s@[i as int])) as nat,
            ));
        }
        if acc > (u32::MAX - d) / 10 {
            proof {
                lemma_fold_digits_ge_acc(s@.skip(i as int + 1), (acc * 10 + sp_digit_val(
                    s@[i as int],
                )) as nat);
                assert(acc * 10 + sp_digit_val(s@[i as int]) > u32::MAX);
                assert(sp_digits_val(t) > u32::MAX);
            }
            return 0;
        }
        acc = acc * 10 + d;
        i = i + 1;
    }
    proof {
        assert(s@.skip(n as int).len() == 0);
        assert(sp_fold_digits(t, 0) == acc);
        assert(forall|j: int| 0 <= j < t.len() ==> sp_is_digit(#[trigger] t[j]));
    }
    acc as usize
}

} // verus!
