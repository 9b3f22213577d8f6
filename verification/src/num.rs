//! Decimal text for the integers the GUI exchanges with the tool: the thread
//! count placed on the command line and the exit code carried by the relay
//! sentinel. Representation and parsing are each pinned down by a spec
//! function, and parsing a representation is proved to give the value back.

use vstd::prelude::*;

verus! {

/// Whether `c` is one of the ten decimal digit characters.
pub open spec fn is_dec_digit(c: char) -> bool {
    c == '0' || c == '1' || c == '2' || c == '3' || c == '4' || c == '5' || c == '6' || c == '7'
        || c == '8' || c == '9'
}

/// The digit character for a value below ten.
pub open spec fn digit_char(d: nat) -> char {
    if d == 0 {
        '0'
    } else if d == 1 {
        '1'
    } else if d == 2 {
        '2'
    } else if d == 3 {
        '3'
    } else if d == 4 {
        '4'
    } else if d == 5 {
        '5'
    } else if d == 6 {
        '6'
    } else if d == 7 {
        '7'
    } else if d == 8 {
        '8'
    } else {
        '9'
    }
}

/// The value of a digit character (zero for anything else).
pub open spec fn digit_val(c: char) -> nat {
    if c == '0' {
        0
    } else if c == '1' {
        1
    } else if c == '2' {
        2
    } else if c == '3' {
        3
    } else if c == '4' {
        4
    } else if c == '5' {
        5
    } else if c == '6' {
        6
    } else if c == '7' {
        7
    } else if c == '8' {
        8
    } else if c == '9' {
        9
    } else {
        0
    }
}

/// The usual decimal representation of `n`: no sign, no leading zero except
/// for `n == 0` itself.
pub open spec fn dec_rep(n: nat) -> Seq<char>
    decreases n,
{
    if n < 10 {
        seq![digit_char(n)]
    } else {
        dec_rep(n / 10) + seq![digit_char(n % 10)]
    }
}

/// The decimal representation of a possibly negative integer: a leading `-`
/// for negative values.
pub open spec fn int_rep(n: int) -> Seq<char> {
    if n < 0 {
        seq!['-'] + dec_rep((-n) as nat)
    } else {
        dec_rep(n as nat)
    }
}

/// The numeric value of a sequence of digit characters, most significant
/// first.
pub open spec fn dec_val(ds: Seq<char>) -> nat
    decreases ds.len(),
{
    if ds.len() == 0 {
        0
    } else {
        dec_val(ds.drop_last()) * 10 + digit_val(ds.last())
    }
}

/// How many decimal digit characters `s` starts with.
pub open spec fn digit_run_len(s: Seq<char>) -> int
    decreases s.len(),
{
    if s.len() > 0 && is_dec_digit(s[0]) {
        1 + digit_run_len(s.drop_first())
    } else {
        0
    }
}

/// Reading an unsigned number from the front of `s`: the value of the
/// leading digit run and the rest of `s`, or nothing when `s` does not start
/// with a digit or the value does not fit in a `u32`.
pub open spec fn scan_u32(s: Seq<char>) -> Option<(u32, Seq<char>)> {
    let k = digit_run_len(s);
    if k == 0 {
        None
    } else if dec_val(s.take(k)) > u32::MAX {
        None
    } else {
        Some((dec_val(s.take(k)) as u32, s.skip(k)))
    }
}

/// Largest magnitude a negative `i32` can carry.
pub open spec fn i32_neg_bound() -> nat {
    0x8000_0000
}

/// Reading a whole string as an `i32`, the way the standard numeric parser
/// does: an optional sign, then one or more digits covering the entire
/// string, with the value in range.
pub open spec fn parse_i32(s: Seq<char>) -> Option<i32> {
    if s.len() == 0 {
        None
    } else {
        let negative = s[0] == '-';
        let t = if s[0] == '-' || s[0] == '+' {
            s.drop_first()
        } else {
            s
        };
        if digit_run_len(t) != t.len() || t.len() == 0 {
            None
        } else if negative {
            if dec_val(t) > i32_neg_bound() {
                None
            } else {
                Some((-(dec_val(t) as int)) as i32)
            }
        } else {
            if dec_val(t) > i32::MAX {
                None
            } else {
                Some(dec_val(t) as i32)
            }
        }
    }
}

/// A decimal representation is never empty and holds digit characters only.
pub proof fn lemma_dec_rep_digits(n: nat)
    ensures
        dec_rep(n).len() >= 1,
        forall|i: int| 0 <= i < dec_rep(n).len() ==> is_dec_digit(#[trigger] dec_rep(n)[i]),
    decreases n,
{
    if n >= 10 {
        lemma_dec_rep_digits(n / 10);
    }
}

/// Reading back a decimal representation gives the value it was made from.
pub proof fn lemma_dec_val_rep(n: nat)
    ensures
        dec_val(dec_rep(n)) == n,
    decreases n,
{
    if n < 10 {
        assert(dec_rep(n).drop_last() =~= Seq::<char>::empty());
        assert(dec_rep(n).last() == digit_char(n));
        assert(digit_val(digit_char(n)) == n);
        assert(dec_val(Seq::<char>::empty()) == 0);
        assert(dec_val(dec_rep(n)) == dec_val(Seq::<char>::empty()) * 10 + digit_val(
            digit_char(n),
        ));
    } else {
        lemma_dec_val_rep(n / 10);
        assert(dec_rep(n).drop_last() =~= dec_rep(n / 10));
        assert(dec_rep(n).last() == digit_char(n % 10));
        assert(digit_val(digit_char(n % 10)) == n % 10);
        assert(n / 10 * 10 + n % 10 == n) by {
            vstd::arithmetic::div_mod::lemma_fundamental_div_mod(n as int, 10);
        }
    }
}

/// The digit run of a digit sequence followed by a non-digit (or by nothing)
/// is exactly that digit sequence.
pub proof fn lemma_digit_run_concat(ds: Seq<char>, rest: Seq<char>)
    requires
        forall|i: int| 0 <= i < ds.len() ==> is_dec_digit(#[trigger] ds[i]),
        rest.len() == 0 || !is_dec_digit(rest[0]),
    ensures
        digit_run_len(ds + rest) == ds.len(),
    decreases ds.len(),
{
    if ds.len() == 0 {
        assert(ds + rest =~= rest);
    } else {
        assert((ds + rest).drop_first() =~= ds.drop_first() + rest);
        lemma_digit_run_concat(ds.drop_first(), rest);
    }
}

/// The digit run stops exactly at the first non-digit character.
pub proof fn lemma_digit_run_stops(s: Seq<char>, p: int)
    requires
        0 <= p <= s.len(),
        forall|i: int| 0 <= i < p ==> is_dec_digit(#[trigger] s[i]),
        p == s.len() || !is_dec_digit(s[p]),
    ensures
        digit_run_len(s) == p,
    decreases s.len(),
{
    if p > 0 {
        lemma_digit_run_stops(s.drop_first(), p - 1);
    }
}

/// A run of digit characters at the front keeps the digit run at least that
/// long.
pub proof fn lemma_digit_run_at_least(s: Seq<char>, p: int)
    requires
        0 <= p <= s.len(),
        forall|i: int| 0 <= i < p ==> is_dec_digit(#[trigger] s[i]),
    ensures
        digit_run_len(s) >= p,
    decreases p,
{
    if p > 0 {
        assert(is_dec_digit(s[0]));
        assert forall|i: int| 0 <= i < p - 1 implies is_dec_digit(#[trigger] s.drop_first()[i]) by {
            assert(s.drop_first()[i] == s[i + 1]);
        }
        lemma_digit_run_at_least(s.drop_first(), p - 1);
    } else {
        lemma_digit_run_bounds(s);
    }
}

/// The digit run never runs past the end.
pub proof fn lemma_digit_run_bounds(s: Seq<char>)
    ensures
        0 <= digit_run_len(s) <= s.len(),
    decreases s.len(),
{
    if s.len() > 0 && is_dec_digit(s[0]) {
        lemma_digit_run_bounds(s.drop_first());
    }
}

/// Taking one more digit multiplies the value so far by ten and adds it.
pub proof fn lemma_dec_val_step(t: Seq<char>, m: int)
    requires
        0 <= m < t.len(),
    ensures
        dec_val(t.take(m + 1)) == dec_val(t.take(m)) * 10 + digit_val(t[m]),
{
    assert(t.take(m + 1).drop_last() =~= t.take(m));
    assert(t.take(m + 1).last() == t[m]);
}

/// A longer digit prefix never has a smaller value.
pub proof fn lemma_dec_val_extend_ge(t: Seq<char>, m: int)
    requires
        0 <= m <= t.len(),
    ensures
        dec_val(t) >= dec_val(t.take(m)),
    decreases t.len() - m,
{
    if m < t.len() {
        lemma_dec_val_step(t, m);
        lemma_dec_val_extend_ge(t, m + 1);
    } else {
        assert(t.take(m) =~= t);
    }
}

/// Scanning a number written by [`dec_rep`] and followed by a non-digit (or
/// by nothing) yields the value back, with the rest untouched.
pub proof fn lemma_scan_u32_rep(n: u32, rest: Seq<char>)
    requires
        rest.len() == 0 || !is_dec_digit(rest[0]),
    ensures
        scan_u32(dec_rep(n as nat) + rest) == Some((n, rest)),
{
    let ds = dec_rep(n as nat);
    lemma_dec_rep_digits(n as nat);
    lemma_digit_run_concat(ds, rest);
    lemma_dec_val_rep(n as nat);
    assert((ds + rest).take(ds.len() as int) =~= ds);
    assert((ds + rest).skip(ds.len() as int) =~= rest);
}

/// Parsing the representation of an `i32` yields the value back.
pub proof fn lemma_parse_int_rep(n: i32)
    ensures
        parse_i32(int_rep(n as int)) == Some(n),
{
    if n < 0 {
        let m = (-(n as int)) as nat;
        let ds = dec_rep(m);
        let s = seq!['-'] + ds;
        lemma_dec_rep_digits(m);
        lemma_dec_val_rep(m);
        assert(s[0] == '-');
        assert(s.drop_first() =~= ds);
        lemma_digit_run_concat(ds, Seq::<char>::empty());
        assert(ds + Seq::<char>::empty() =~= ds);
    } else {
        let m = n as nat;
        let ds = dec_rep(m);
        lemma_dec_rep_digits(m);
        lemma_dec_val_rep(m);
        assert(ds[0] != '-' && ds[0] != '+') by {
            assert(is_dec_digit(ds[0]));
        }
        lemma_digit_run_concat(ds, Seq::<char>::empty());
        assert(ds + Seq::<char>::empty() =~= ds);
    }
}

/// The digit character for `d`, as an executable step.
pub fn digit_to_char(d: u32) -> (c: char)
    requires
        d < 10,
    ensures
        c == digit_char(d as nat),
{
    if d == 0 {
        '0'
    } else if d == 1 {
        '1'
    } else if d == 2 {
        '2'
    } else if d == 3 {
        '3'
    } else if d == 4 {
        '4'
    } else if d == 5 {
        '5'
    } else if d == 6 {
        '6'
    } else if d == 7 {
        '7'
    } else if d == 8 {
        '8'
    } else {
        '9'
    }
}

/// Whether `c` is a decimal digit, and if so its value.
pub fn char_digit(c: char) -> (r: Option<u32>)
    ensures
        is_dec_digit(c) <==> r is Some,
        r is Some ==> r->0 == digit_val(c) && r->0 < 10,
{
    if c == '0' {
        Some(0)
    } else if c == '1' {
        Some(1)
    } else if c == '2' {
        Some(2)
    } else if c == '3' {
        Some(3)
    } else if c == '4' {
        Some(4)
    } else if c == '5' {
        Some(5)
    } else if c == '6' {
        Some(6)
    } else if c == '7' {
        Some(7)
    } else if c == '8' {
        Some(8)
    } else if c == '9' {
        Some(9)
    } else {
        None
    }
}

/// Appends the decimal representation of `n` to `out`.
pub fn push_dec_u32(out: &mut Vec<char>, n: u32)
    ensures
        final(out)@ == old(out)@ + dec_rep(n as nat),
    decreases n,
{
    if n < 10 {
        out.push(digit_to_char(n));
    } else {
        push_dec_u32(out, n / 10);
        out.push(digit_to_char(n % 10));
        proof {
            assert(out@ =~= old(out)@ + dec_rep(n as nat));
        }
    }
}

/// Appends the decimal representation of `n`, sign included, to `out`.
pub fn push_dec_i32(out: &mut Vec<char>, n: i32)
    ensures
        final(out)@ == old(out)@ + int_rep(n as int),
{
    if n >= 0 {
        push_dec_u32(out, n as u32);
    } else {
        out.push('-');
        let wide: i64 = -(n as i64);
        assert(0 < wide <= u32::MAX as i64);
        let m: u32 = wide as u32;
        push_dec_u32(out, m);
        proof {
            assert(out@ =~= old(out)@ + int_rep(n as int));
        }
    }
}

/// The decimal text of `n`.
pub fn u32_to_string(n: u32) -> (r: String)
    ensures
        r@ == dec_rep(n as nat),
{
    let mut out: Vec<char> = Vec::new();
    push_dec_u32(&mut out, n);
    crate::text::chars_to_string(&out)
}

/// Reads an unsigned number from `s` starting at `from`, as [`scan_u32`]
/// describes on the remaining characters.
pub fn scan_u32_chars(s: &Vec<char>, from: usize) -> (r: Option<(u32, usize)>)
    requires
        from <= s@.len(),
    ensures
        match r {
            Some(p) => {
                &&& from <= p.1 <= s@.len()
                &&& scan_u32(s@.skip(from as int)) == Some((p.0, s@.skip(p.1 as int)))
            },
            None => scan_u32(s@.skip(from as int)) is None,
        },
{
    let ghost t = s@.skip(from as int);
    proof {
        assert(t.take(0) =~= Seq::<char>::empty());
    }
    let mut i: usize = from;
    let mut acc: u64 = 0;
    loop
        invariant
            from <= i <= s@.len(),
            t == s@.skip(from as int),
            forall|j: int| 0 <= j < i - from ==> is_dec_digit(#[trigger] t[j]),
            acc == dec_val(t.take(i - from)),
            acc <= u32::MAX,
        ensures
            from <= i <= s@.len(),
            forall|j: int| 0 <= j < i - from ==> is_dec_digit(#[trigger] t[j]),
            acc == dec_val(t.take(i - from)),
            acc <= u32::MAX,
            i - from == t.len() || !is_dec_digit(t[i - from]),
        decreases s@.len() - i,
    {
        if i == s.len() {
            break;
        }
        let c = s[i];
        assert(c == t[i - from]);
        match char_digit(c) {
            None => {
                break;
            },
            Some(d) => {
                proof {
                    lemma_dec_val_step(t, i - from);
                }
                let next: u64 = acc * 10 + (d as u64);
                if next > u32::MAX as u64 {
                    proof {
                        lemma_digit_run_at_least(t, i + 1 - from);
                        lemma_digit_run_bounds(t);
                        let k = digit_run_len(t);
                        lemma_dec_val_extend_ge(t.take(k), i + 1 - from);
                        assert(t.take(k).take(i + 1 - from) =~= t.take(i + 1 - from));
                    }
                    return None;
                }
                acc = next;
                i = i + 1;
            },
        }
    }
    proof {
        lemma_digit_run_stops(t, i - from);
    }
    if i == from {
        return None;
    }
    proof {
        assert(s@.skip(i as int) =~= t.skip(i - from));
    }
    Some((acc as u32, i))
}

/// Reads the whole of `s` from `from` on as an `i32`, as [`parse_i32`]
/// describes on the remaining characters.
#[verifier::loop_isolation(false)]
pub fn parse_i32_chars(s: &Vec<char>, from: usize) -> (r: Option<i32>)
    requires
        from <= s@.len(),
    ensures
        r == parse_i32(s@.skip(from as int)),
{
    let ghost whole = s@.skip(from as int);
    if from == s.len() {
        return None;
    }
    let first = s[from];
    assert(first == whole[0]);
    let negative = first == '-';
    let start: usize = if first == '-' || first == '+' {
        from + 1
    } else {
        from
    };
    let ghost t = if whole[0] == '-' || whole[0] == '+' {
        whole.drop_first()
    } else {
        whole
    };
    proof {
        assert(s@.skip(start as int) =~= t);
        assert(t.take(0) =~= Seq::<char>::empty());
    }
    let mut i: usize = start;
    let mut acc: u64 = 0;
    while i < s.len()
        invariant
            start <= i <= s@.len(),
            forall|j: int| 0 <= j < i - start ==> is_dec_digit(#[trigger] t[j]),
            acc == dec_val(t.take(i - start)),
            acc <= i32_neg_bound(),
        decreases s@.len() - i,
    {
        let c = s[i];
        assert(c == t[i - start]);
        match char_digit(c) {
            None => {
                // A non-digit before the end: the digit run does not cover
                // the rest, so nothing parses.
                proof {
                    lemma_digit_run_stops(t, i - start);
                }
                return None;
            },
            Some(d) => {
                proof {
                    lemma_dec_val_step(t, i - start);
                }
                let next: u64 = acc * 10 + (d as u64);
                if next > 0x8000_0000u64 {
                    proof {
                        lemma_digit_run_bounds(t);
                        lemma_dec_val_extend_ge(t, i + 1 - start);
                        let k = digit_run_len(t);
                        if k == t.len() {
                            assert(t.take(t.len() as int) =~= t);
                        }
                    }
                    return None;
                }
                acc = next;
                i = i + 1;
            },
        }
    }
    proof {
        lemma_digit_run_stops(t, i - start);
        assert(t.take(t.len() as int) =~= t);
    }
    if i == start {
        return None;
    }
    if negative {
        let wide: i64 = -(acc as i64);
        assert(i32::MIN as i64 <= wide <= 0);
        Some(wide as i32)
    } else {
        if acc > i32::MAX as u64 {
            return None;
        }
        Some(acc as i32)
    }
}

} // verus!
