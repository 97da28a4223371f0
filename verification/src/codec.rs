//! The wire format of the message channel: one JSON object per block.
//!
//! The format is fixed and canonical — fields in one order, no whitespace,
//! numbers in plain decimal, strings of plain printable ASCII without
//! escapes. `json_of_message` states the exact character sequence of a
//! message; `encode_block_message` produces it and `decode_block_message`
//! is pinned to the spec-level parser `sp_message`, which accepts exactly
//! the canonical renderings. The round-trip law at the end ties the two:
//! parsing a rendering of any well-formed message gives that message back.

use vstd::prelude::*;
use vstd::string::StrSliceExecFns;
use vstd::string::StringExecFns;
use crate::block::{
    Block, BlockMessage, BlockV, MessageV, Transaction, TransactionV, plain_char, plain_text,
    wf_block, wf_message, wf_transaction,
};

verus! {

// ------------------------------------------------------------------
// Decimal numerals
// ------------------------------------------------------------------

pub open spec fn digit_char(d: nat) -> char {
    if d == 0 {
        '0'
    } else if d == 1 {
        '1'
    } else if d == 2 {
        '2'
    } else if d == 3 {
        '3'
    } else if d == 4 {
        '4'
    } else if d == 5 {
        '5'
    } else if d == 6 {
        '6'
    } else if d == 7 {
        '7'
    } else if d == 8 {
        '8'
    } else {
        '9'
    }
}

pub open spec fn is_digit(c: char) -> bool {
    0x30 <= (c as u32) <= 0x39
}

pub open spec fn digit_val(c: char) -> nat {
    ((c as u32) - 0x30) as nat
}

/// The canonical decimal numeral of `n`: no sign, no leading zero.
pub open spec fn dec_of(n: nat) -> Seq<char>
    decreases n,
{
    if n < 10 {
        seq![digit_char(n)]
    } else {
        dec_of(n / 10).push(digit_char(n % 10))
    }
}

proof fn lemma_digit_char(d: nat)
    requires
        d < 10,
    ensures
        is_digit(digit_char(d)),
        digit_val(digit_char(d)) == d,
        digit_char(d) == '0' <==> d == 0,
{
    assert(('0' as u32) == 0x30 && ('1' as u32) == 0x31 && ('2' as u32) == 0x32 && ('3' as u32)
        == 0x33 && ('4' as u32) == 0x34 && ('5' as u32) == 0x35 && ('6' as u32) == 0x36 && (
    '7' as u32) == 0x37 && ('8' as u32) == 0x38 && ('9' as u32) == 0x39);
}

proof fn lemma_dec_of_digits(n: nat)
    ensures
        dec_of(n).len() >= 1,
        forall|i: int| 0 <= i < dec_of(n).len() ==> is_digit(#[trigger] dec_of(n)[i]),
        n > 0 ==> dec_of(n)[0] != '0',
        n < 10 ==> dec_of(n) =~= seq![digit_char(n)],
    decreases n,
{
    if n >= 10 {
        lemma_dec_of_digits(n / 10);
    }
}

/// Left-fold value of a digit run, as the parser accumulates it.
pub open spec fn fold_val(acc: nat, s: Seq<char>) -> nat
    decreases s.len(),
{
    if s.len() == 0 {
        acc
    } else {
        fold_val(acc * 10 + digit_val(s[0]), s.skip(1))
    }
}

proof fn lemma_fold_val_push(acc: nat, s: Seq<char>, d: char)
    ensures
        fold_val(acc, s.push(d)) == fold_val(acc, s) * 10 + digit_val(d),
    decreases s.len(),
{
    if s.len() == 0 {
        assert(s.push(d).skip(1) =~= Seq::<char>::empty());
        assert(s.push(d)[0] == d);
        assert(fold_val(acc, s.push(d)) == fold_val(acc * 10 + digit_val(d), s.push(d).skip(1)));
        assert(fold_val(acc * 10 + digit_val(d), Seq::<char>::empty()) == acc * 10 + digit_val(d));
        assert(fold_val(acc, s) == acc);
    } else {
        assert(s.push(d).skip(1) =~= s.skip(1).push(d));
        assert(s.push(d)[0] == s[0]);
        lemma_fold_val_push(acc * 10 + digit_val(s[0]), s.skip(1), d);
        assert(fold_val(acc, s.push(d)) == fold_val(acc * 10 + digit_val(s[0]), s.skip(1).push(d)));
        assert(fold_val(acc, s) == fold_val(acc * 10 + digit_val(s[0]), s.skip(1)));
    }
}

proof fn lemma_fold_val_dec_of(n: nat)
    ensures
        fold_val(0, dec_of(n)) == n,
    decreases n,
{
    if n < 10 {
        lemma_digit_char(n);
        assert(dec_of(n) =~= seq![digit_char(n)]);
        assert(dec_of(n)[0] == digit_char(n));
        assert(dec_of(n).skip(1) =~= Seq::<char>::empty());
        assert(fold_val(0, dec_of(n)) == fold_val(digit_val(digit_char(n)), dec_of(n).skip(1)));
    } else {
        lemma_digit_char(n % 10);
        lemma_fold_val_dec_of(n / 10);
        lemma_fold_val_push(0, dec_of(n / 10), digit_char(n % 10));
        assert(fold_val(0, dec_of(n)) == fold_val(0, dec_of(n / 10)) * 10 + digit_val(
            digit_char(n % 10),
        ));
        assert(n / 10 * 10 + n % 10 == n);
    }
}

/// Suffix-style digit-run parser: consumes leading digits into `acc`,
/// returns the value and the unconsumed rest.
pub open spec fn sp_digits(s: Seq<char>, acc: nat) -> (nat, Seq<char>)
    decreases s.len(),
{
    if s.len() > 0 && is_digit(s[0]) {
        sp_digits(s.skip(1), acc * 10 + digit_val(s[0]))
    } else {
        (acc, s)
    }
}

proof fn lemma_sp_digits_ge_acc(s: Seq<char>, acc: nat)
    ensures
        sp_digits(s, acc).0 >= acc,
    decreases s.len(),
{
    if s.len() > 0 && is_digit(s[0]) {
        lemma_sp_digits_ge_acc(s.skip(1), acc * 10 + digit_val(s[0]));
        assert(acc * 10 >= acc * 1) by {
            vstd::arithmetic::mul::lemma_mul_inequality(1, 10, acc as int);
        }
    }
}

proof fn lemma_sp_digits_of(digits: Seq<char>, rest: Seq<char>, acc: nat)
    requires
        forall|i: int| 0 <= i < digits.len() ==> is_digit(#[trigger] digits[i]),
        rest.len() == 0 || !is_digit(rest[0]),
    ensures
        sp_digits(digits + rest, acc) == (fold_val(acc, digits), rest),
    decreases digits.len(),
{
    if digits.len() == 0 {
        assert(digits + rest =~= rest);
    } else {
        assert((digits + rest).skip(1) =~= digits.skip(1) + rest);
        assert((digits + rest)[0] == digits[0]);
        lemma_sp_digits_of(digits.skip(1), rest, acc * 10 + digit_val(digits[0]));
    }
}

/// Parses a canonical `u64` numeral: at least one digit, no leading zero,
/// value within `u64`. Returns the value and the rest.
pub open spec fn sp_u64(s: Seq<char>) -> Option<(u64, Seq<char>)> {
    if s.len() == 0 || !is_digit(s[0]) {
        Option::None
    } else if s[0] == '0' {
        if s.len() >= 2 && is_digit(s[1]) {
            Option::None
        } else {
            Option::Some((0u64, s.skip(1)))
        }
    } else {
        let (v, rest) = sp_digits(s, 0);
        if v <= u64::MAX {
            Option::Some((v as u64, rest))
        } else {
            Option::None
        }
    }
}

/// A canonical numeral followed by anything that does not extend it parses
/// back to its value.
proof fn lemma_sp_u64_of(n: u64, rest: Seq<char>)
    requires
        rest.len() == 0 || !is_digit(rest[0]),
    ensures
        sp_u64(dec_of(n as nat) + rest) == Option::Some((n, rest)),
{
    lemma_dec_of_digits(n as nat);
    let s = dec_of(n as nat) + rest;
    assert(s[0] == dec_of(n as nat)[0]);
    if n == 0 {
        assert(dec_of(0) =~= seq!['0']);
        assert(s.len() >= 2 ==> s[1] == rest[0]);
        assert(s.skip(1) =~= rest);
    } else {
        lemma_sp_digits_of(dec_of(n as nat), rest, 0);
        lemma_fold_val_dec_of(n as nat);
    }
}

// ------------------------------------------------------------------
// Literals and strings
// ------------------------------------------------------------------

/// Consumes the exact literal `l` from the front of `s`.
pub open spec fn sp_lit(s: Seq<char>, l: Seq<char>) -> Option<Seq<char>> {
    if l.len() <= s.len() && s.take(l.len() as int) == l {
        Option::Some(s.skip(l.len() as int))
    } else {
        Option::None
    }
}

proof fn lemma_sp_lit_of(l: Seq<char>, rest: Seq<char>)
    ensures
        sp_lit(l + rest, l) == Option::Some(rest),
{
    assert((l + rest).take(l.len() as int) =~= l);
    assert((l + rest).skip(l.len() as int) =~= rest);
}

/// Index of the next unescaped quote, provided everything before it is
/// plain text; `None` on a character the wire format does not allow.
pub open spec fn scan_quote(s: Seq<char>) -> Option<int>
    decreases s.len(),
{
    if s.len() == 0 {
        Option::None
    } else if s[0] == '"' {
        Option::Some(0int)
    } else if plain_char(s[0]) {
        match scan_quote(s.skip(1)) {
            Option::Some(j) => Option::Some(1 + j),
            Option::None => Option::None,
        }
    } else {
        Option::None
    }
}

proof fn lemma_scan_quote_of(v: Seq<char>, after: Seq<char>)
    requires
        plain_text(v),
        after.len() >= 1,
        after[0] == '"',
    ensures
        scan_quote(v + after) == Option::Some(v.len() as int),
    decreases v.len(),
{
    let t = v + after;
    if v.len() == 0 {
        assert(t =~= after);
    } else {
        assert(t[0] == v[0]);
        assert(plain_char(v[0]));
        assert(t.skip(1) =~= v.skip(1) + after);
        lemma_scan_quote_of(v.skip(1), after);
    }
}

/// A quoted run of plain text.
pub open spec fn quoted(v: Seq<char>) -> Seq<char> {
    seq!['"'] + v + seq!['"']
}

/// Consumes a quoted plain string from the front of `s`.
pub open spec fn sp_string(s: Seq<char>) -> Option<(Seq<char>, Seq<char>)> {
    if s.len() >= 1 && s[0] == '"' {
        match scan_quote(s.skip(1)) {
            Option::Some(j) => Option::Some((s.skip(1).take(j), s.skip(1).skip(j + 1))),
            Option::None => Option::None,
        }
    } else {
        Option::None
    }
}

proof fn lemma_sp_string_of(v: Seq<char>, rest: Seq<char>)
    requires
        plain_text(v),
    ensures
        sp_string(quoted(v) + rest) == Option::Some((v, rest)),
{
    let s = quoted(v) + rest;
    assert(s[0] == '"');
    assert(s.skip(1) =~= v + (seq!['"'] + rest));
    lemma_scan_quote_of(v, seq!['"'] + rest);
    assert(s.skip(1).take(v.len() as int) =~= v);
    assert(s.skip(1).skip(v.len() as int + 1) =~= rest);
}

/// JSON rendering of an optional string: `null` or the quoted text.
pub open spec fn json_opt(o: Option<Seq<char>>) -> Seq<char> {
    match o {
        Option::Some(v) => quoted(v),
        Option::None => "null"@,
    }
}

/// Consumes `null` or a quoted plain string from the front of `s`.
pub open spec fn sp_opt_string(s: Seq<char>) -> Option<(Option<Seq<char>>, Seq<char>)> {
    match sp_lit(s, "null"@) {
        Option::Some(rest) => Option::Some((Option::None, rest)),
        Option::None => match sp_string(s) {
            Option::Some((v, rest)) => Option::Some((Option::Some(v), rest)),
            Option::None => Option::None,
        },
    }
}

proof fn lemma_sp_opt_string_of(o: Option<Seq<char>>, rest: Seq<char>)
    requires
        match o {
            Option::Some(v) => plain_text(v),
            Option::None => true,
        },
    ensures
        sp_opt_string(json_opt(o) + rest) == Option::Some((o, rest)),
{
    reveal_strlit("null");
    let s = json_opt(o) + rest;
    match o {
        Option::None => {
            lemma_sp_lit_of("null"@, rest);
        },
        Option::Some(v) => {
            assert(s[0] == '"');
            assert(sp_lit(s, "null"@) is None) by {
                if sp_lit(s, "null"@) is Some {
                    assert(s.take(4)[0] == s[0]);
                }
            }
            lemma_sp_string_of(v, rest);
        },
    }
}

fn digit_str(d: u64) -> (s: &'static str)
    requires
        d < 10,
    ensures
        s@ =~= seq![digit_char(d as nat)],
{
    proof {
        reveal_strlit("0");
        reveal_strlit("1");
        reveal_strlit("2");
        reveal_strlit("3");
        reveal_strlit("4");
        reveal_strlit("5");
        reveal_strlit("6");
        reveal_strlit("7");
        reveal_strlit("8");
        reveal_strlit("9");
    }
    match d {
        0 => "0",
        1 => "1",
        2 => "2",
        3 => "3",
        4 => "4",
        5 => "5",
        6 => "6",
        7 => "7",
        8 => "8",
        _ => "9",
    }
}

/// Consumes the literal `l` from the front of `s`, or reports that `s`
/// does not start with it.
fn p_lit<'a>(s: &'a str, l: &str) -> (r: Option<&'a str>)
    ensures
        match r {
            Option::Some(rest) => sp_lit(s@, l@) == Option::Some(rest@),
            Option::None => sp_lit(s@, l@) is None,
        },
{
    let ln = l.unicode_len();
    let sn = s.unicode_len();
    if ln > sn {
        return None;
    }
    let mut i: usize = 0;
    while i < ln
        invariant
            0 <= i <= ln <= sn,
            ln == l@.len(),
            sn == s@.len(),
            forall|k: int| 0 <= k < i ==> s@[k] == l@[k],
        decreases ln - i,
    {
        if s.get_char(i) != l.get_char(i) {
            proof {
                assert(s@.take(l@.len() as int)[i as int] == s@[i as int]);
            }
            return None;
        }
        i = i + 1;
    }
    proof {
        assert(s@.take(l@.len() as int) =~= l@);
        assert(s@.subrange(ln as int, sn as int) =~= s@.skip(ln as int));
    }
    Some(s.substring_char(ln, sn))
}

/// Consumes a canonical `u64` numeral from the front of `s`.
fn p_u64<'a>(s: &'a str) -> (r: Option<(u64, &'a str)>)
    ensures
        match r {
            Option::Some(p) => sp_u64(s@) == Option::Some((p.0, p.1@)),
            Option::None => sp_u64(s@) is None,
        },
{
    let n = s.unicode_len();
    if n == 0 {
        return None;
    }
    let c0 = s.get_char(0);
    let v0 = c0 as u32;
    if v0 < 0x30 || v0 > 0x39 {
        return None;
    }
    if c0 == '0' {
        if n >= 2 {
            let c1 = s.get_char(1);
            let v1 = c1 as u32;
            if 0x30 <= v1 && v1 <= 0x39 {
                return None;
            }
        }
        proof {
            assert(s@.subrange(1, n as int) =~= s@.skip(1));
        }
        return Some((0, s.substring_char(1, n)));
    }
    let mut i: usize = 0;
    let mut val: u64 = 0;
    let mut stop = false;
    proof {
        assert(s@.skip(0) =~= s@);
    }
    while !stop && i < n
        invariant
            0 <= i <= n,
            n == s@.len(),
            n >= 1,
            is_digit(s@[0]),
            s@[0] != '0',
            sp_digits(s@, 0) == sp_digits(s@.skip(i as int), val as nat),
            stop ==> sp_digits(s@.skip(i as int), val as nat) == (val as nat, s@.skip(i as int)),
        decreases n - i + (if stop { 0int } else { 1int }),
    {
        let c = s.get_char(i);
        let v = c as u32;
        if v < 0x30 || v > 0x39 {
            proof {
                assert(s@.skip(i as int)[0] == s@[i as int]);
                assert(sp_digits(s@.skip(i as int), val as nat) == (val as nat, s@.skip(i as int)));
            }
            stop = true;
        } else {
            let d = (v - 0x30) as u64;
            proof {
                assert(s@.skip(i as int)[0] == s@[i as int]);
                assert(s@.skip(i as int).skip(1) =~= s@.skip(i as int + 1));
                assert(sp_digits(s@.skip(i as int), val as nat) == sp_digits(
                    s@.skip(i as int + 1),
                    (val as nat) * 10 + digit_val(s@[i as int]),
                ));
            }
            let m = match val.checked_mul(10) {
                Some(m) => m,
                None => {
                    proof {
                        lemma_sp_digits_ge_acc(
                            s@.skip(i as int + 1),
                            (val as nat) * 10 + digit_val(s@[i as int]),
                        );
                    }
                    return None;
                },
            };
            let val2 = match m.checked_add(d) {
                Some(v2) => v2,
                None => {
                    proof {
                        lemma_sp_digits_ge_acc(
                            s@.skip(i as int + 1),
                            (val as nat) * 10 + digit_val(s@[i as int]),
                        );
                    }
                    return None;
                },
            };
            val = val2;
            i = i + 1;
        }
    }
    proof {
        if !stop {
            assert(i == n);
            assert(s@.skip(n as int) =~= Seq::<char>::empty());
            assert(sp_digits(s@.skip(i as int), val as nat) == (val as nat, s@.skip(i as int)));
        }
        assert(s@.subrange(i as int, n as int) =~= s@.skip(i as int));
    }
    Some((val, s.substring_char(i, n)))
}

/// Consumes a quoted plain string from the front of `s`, handing its
/// contents back as an owned `String`.
fn p_string<'a>(s: &'a str) -> (r: Option<(String, &'a str)>)
    ensures
        match r {
            Option::Some(p) => sp_string(s@) == Option::Some((p.0@, p.1@)),
            Option::None => sp_string(s@) is None,
        },
{
    let n = s.unicode_len();
    if n == 0 {
        return None;
    }
    if s.get_char(0) != '"' {
        return None;
    }
    let mut j: usize = 1;
    while j < n
        invariant
            1 <= j <= n,
            n == s@.len(),
            s@[0] == '"',
            scan_quote(s@.skip(1)) == match scan_quote(s@.skip(j as int)) {
                Option::Some(x) => Option::Some(j - 1 + x),
                Option::None => Option::None::<int>,
            },
        decreases n - j,
    {
        let c = s.get_char(j);
        proof {
            assert(s@.skip(j as int)[0] == s@[j as int]);
        }
        if c == '"' {
            proof {
                assert(scan_quote(s@.skip(j as int)) == Option::Some(0int));
                assert(s@.skip(1).take(j - 1) =~= s@.subrange(1, j as int));
                assert(s@.skip(1).skip(j as int) =~= s@.subrange(j as int + 1, n as int));
            }
            let val = String::from_str(s.substring_char(1, j));
            let rest = s.substring_char(j + 1, n);
            return Some((val, rest));
        }
        let v = c as u32;
        if v < 0x20 || v > 0x7e || c == '\\' {
            proof {
                assert(!plain_char(s@[j as int]));
                assert(scan_quote(s@.skip(j as int)) is None);
            }
            return None;
        }
        proof {
            assert(plain_char(s@[j as int]));
            assert(s@.skip(j as int).skip(1) =~= s@.skip(j as int + 1));
        }
        j = j + 1;
    }
    proof {
        assert(s@.skip(n as int) =~= Seq::<char>::empty());
        assert(scan_quote(s@.skip(n as int)) is None);
    }
    None
}

/// Consumes `null` or a quoted plain string from the front of `s`.
fn p_opt_string<'a>(s: &'a str) -> (r: Option<(Option<String>, &'a str)>)
    ensures
        match r {
            Option::Some(p) => sp_opt_string(s@) == Option::Some((p.0.deep_view(), p.1@)),
            Option::None => sp_opt_string(s@) is None,
        },
{
    match p_lit(s, "null") {
        Some(rest) => Some((None, rest)),
        None => match p_string(s) {
            Some((v, rest)) => Some((Some(v), rest)),
            None => None,
        },
    }
}

/// Renders `n` as its canonical decimal numeral.
pub fn encode_u64(n: u64) -> (s: String)
    ensures
        s@ == dec_of(n as nat),
    decreases n,
{
    if n < 10 {
        let s = String::from_str(digit_str(n));
        s
    } else {
        let mut s = encode_u64(n / 10);
        s.append(digit_str(n % 10));
        proof {
            assert(s@ =~= dec_of(n as nat));
        }
        s
    }
}

// ------------------------------------------------------------------
// Transactions
// ------------------------------------------------------------------

/// First half of the canonical JSON object of one transaction: the
/// textual fields, continuing with the tail.
pub open spec fn json_of_tx(t: TransactionV) -> Seq<char> {
    "{\"hash\":"@ + quoted(t.hash) + ",\"from\":"@ + quoted(t.from_address) + ",\"to\":"@
        + json_opt(t.to_address) + ",\"value\":"@ + quoted(t.value) + ",\"gas_price\":"@
        + quoted(t.gas_price) + json_of_tx_tail(t)
}

/// Second half of the rendering: the numeric fields and the close.
pub open spec fn json_of_tx_tail(t: TransactionV) -> Seq<char> {
    ",\"gas\":"@ + dec_of(t.gas as nat) + ",\"input\":"@ + quoted(t.input) + ",\"nonce\":"@
        + dec_of(t.nonce as nat) + ",\"block_number\":"@ + dec_of(t.block_number as nat) + "}"@
}

/// Consumes one canonical transaction object from the front of `s`.
pub open spec fn sp_tx(s: Seq<char>) -> Option<(TransactionV, Seq<char>)> {
    match sp_lit(s, "{\"hash\":"@) {
        Option::None => Option::None,
        Option::Some(s1) => match sp_string(s1) {
            Option::None => Option::None,
            Option::Some((hash, s2)) => match sp_lit(s2, ",\"from\":"@) {
                Option::None => Option::None,
                Option::Some(s3) => match sp_string(s3) {
                    Option::None => Option::None,
                    Option::Some((from_address, s4)) => match sp_lit(s4, ",\"to\":"@) {
                        Option::None => Option::None,
                        Option::Some(s5) => match sp_opt_string(s5) {
                            Option::None => Option::None,
                            Option::Some((to_address, s6)) => match sp_lit(s6, ",\"value\":"@) {
                                Option::None => Option::None,
                                Option::Some(s7) => match sp_string(s7) {
                                    Option::None => Option::None,
                                    Option::Some((value, s8)) => match sp_lit(
                                        s8,
                                        ",\"gas_price\":"@,
                                    ) {
                                        Option::None => Option::None,
                                        Option::Some(s9) => match sp_string(s9) {
                                            Option::None => Option::None,
                                            Option::Some((gas_price, s10)) => sp_tx_tail(
                                                hash,
                                                from_address,
                                                to_address,
                                                value,
                                                gas_price,
                                                s10,
                                            ),
                                        },
                                    },
                                },
                            },
                        },
                    },
                },
            },
        },
    }
}

/// Second half of the transaction parser: the numeric fields and the
/// close.
pub open spec fn sp_tx_tail(
    hash: Seq<char>,
    from_address: Seq<char>,
    to_address: Option<Seq<char>>,
    value: Seq<char>,
    gas_price: Seq<char>,
    s10: Seq<char>,
) -> Option<(TransactionV, Seq<char>)> {
    match sp_lit(s10, ",\"gas\":"@) {
        Option::None => Option::None,
        Option::Some(s11) => match sp_u64(s11) {
            Option::None => Option::None,
            Option::Some((gas, s12)) => match sp_lit(s12, ",\"input\":"@) {
                Option::None => Option::None,
                Option::Some(s13) => match sp_string(s13) {
                    Option::None => Option::None,
                    Option::Some((input, s14)) => match sp_lit(s14, ",\"nonce\":"@) {
                        Option::None => Option::None,
                        Option::Some(s15) => match sp_u64(s15) {
                            Option::None => Option::None,
                            Option::Some((nonce, s16)) => match sp_lit(
                                s16,
                                ",\"block_number\":"@,
                            ) {
                                Option::None => Option::None,
                                Option::Some(s17) => match sp_u64(s17) {
                                    Option::None => Option::None,
                                    Option::Some((block_number, s18)) => match sp_lit(s18, "}"@) {
                                        Option::None => Option::None,
                                        Option::Some(s19) => Option::Some(
                                            (
                                                TransactionV {
                                                    hash,
                                                    block_number,
                                                    from_address,
                                                    to_address,
                                                    value,
                                                    gas_price,
                                                    gas,
                                                    input,
                                                    nonce,
                                                },
                                                s19,
                                            ),
                                        ),
                                    },
                                },
                            },
                        },
                    },
                },
            },
        },
    }
}

/// Parsing the canonical tail of a transaction gives its fields back.
#[verifier::rlimit(100)]
#[verifier::spinoff_prover]
proof fn lemma_sp_tx_tail_of(t: TransactionV, rest: Seq<char>)
    requires
        wf_transaction(t, t.block_number),
    ensures
        sp_tx_tail(
            t.hash,
            t.from_address,
            t.to_address,
            t.value,
            t.gas_price,
            json_of_tx_tail(t) + rest,
        ) == Option::Some((t, rest)),
{
    let s10x = rest;
    let s9e = "}"@ + s10x;
    let s9 = dec_of(t.block_number as nat) + s9e;
    let s8e = ",\"block_number\":"@ + s9;
    let s8 = dec_of(t.nonce as nat) + s8e;
    let s7e = ",\"nonce\":"@ + s8;
    let s7 = quoted(t.input) + s7e;
    let s6e = ",\"input\":"@ + s7;
    let s6 = dec_of(t.gas as nat) + s6e;
    let s5e = ",\"gas\":"@ + s6;
    assert(json_of_tx_tail(t) + rest =~= s5e);
    lemma_sp_lit_of(",\"gas\":"@, s6);
    assert(s6e[0] == ',' && !is_digit(',' as char)) by {
        reveal_strlit(",\"input\":");
    }
    lemma_sp_u64_of(t.gas, s6e);
    lemma_sp_lit_of(",\"input\":"@, s7);
    lemma_sp_string_of(t.input, s7e);
    lemma_sp_lit_of(",\"nonce\":"@, s8);
    assert(s8e[0] == ',') by {
        reveal_strlit(",\"block_number\":");
    }
    lemma_sp_u64_of(t.nonce, s8e);
    lemma_sp_lit_of(",\"block_number\":"@, s9);
    assert(s9e[0] == '}' && !is_digit('}' as char)) by {
        reveal_strlit("}");
    }
    lemma_sp_u64_of(t.block_number, s9e);
    lemma_sp_lit_of("}"@, s10x);
    let tv = TransactionV {
        hash: t.hash,
        block_number: t.block_number,
        from_address: t.from_address,
        to_address: t.to_address,
        value: t.value,
        gas_price: t.gas_price,
        gas: t.gas,
        input: t.input,
        nonce: t.nonce,
    };
    assert(tv =~= t);
}

/// Parsing a canonical transaction rendering gives the transaction back.
#[verifier::rlimit(100)]
#[verifier::spinoff_prover]
proof fn lemma_sp_tx_of(t: TransactionV, rest: Seq<char>)
    requires
        wf_transaction(t, t.block_number),
    ensures
        sp_tx(json_of_tx(t) + rest) == Option::Some((t, rest)),
{
    let s10 = json_of_tx_tail(t) + rest;
    let s5 = quoted(t.gas_price) + s10;
    let s4e = ",\"gas_price\":"@ + s5;
    let s4 = quoted(t.value) + s4e;
    let s3e = ",\"value\":"@ + s4;
    let s3 = json_opt(t.to_address) + s3e;
    let s2e = ",\"to\":"@ + s3;
    let s2 = quoted(t.from_address) + s2e;
    let s1e = ",\"from\":"@ + s2;
    let s1 = quoted(t.hash) + s1e;
    let s0 = "{\"hash\":"@ + s1;
    assert(json_of_tx(t) + rest =~= s0);
    lemma_sp_lit_of("{\"hash\":"@, s1);
    lemma_sp_string_of(t.hash, s1e);
    lemma_sp_lit_of(",\"from\":"@, s2);
    lemma_sp_string_of(t.from_address, s2e);
    lemma_sp_lit_of(",\"to\":"@, s3);
    lemma_sp_opt_string_of(t.to_address, s3e);
    lemma_sp_lit_of(",\"value\":"@, s4);
    lemma_sp_string_of(t.value, s4e);
    lemma_sp_lit_of(",\"gas_price\":"@, s5);
    lemma_sp_string_of(t.gas_price, s10);
    lemma_sp_tx_tail_of(t, rest);
    assert(sp_tx(s0) == Option::Some((t, rest)));
}

/// Appends `v` as a quoted JSON string.
fn append_quoted(out: &mut String, v: &str)
    ensures
        final(out)@ == old(out)@ + quoted(v@),
{
    out.append("\"");
    out.append(v);
    out.append("\"");
    proof {
        reveal_strlit("\"");
        assert(final(out)@ =~= old(out)@ + quoted(v@));
    }
}

/// Appends an optional string as `null` or a quoted JSON string.
fn append_opt(out: &mut String, v: &Option<String>)
    ensures
        final(out)@ == old(out)@ + json_opt(v.deep_view()),
{
    match v {
        Some(x) => append_quoted(out, x.as_str()),
        None => out.append("null"),
    }
}

/// Appends the canonical decimal numeral of `n`.
fn append_u64(out: &mut String, n: u64)
    ensures
        final(out)@ == old(out)@ + dec_of(n as nat),
{
    let d = encode_u64(n);
    out.append(d.as_str());
}

/// Appends the tail of a transaction rendering.
fn append_tx_tail(out: &mut String, t: &Transaction)
    ensures
        final(out)@ == old(out)@ + json_of_tx_tail(t@),
{
    out.append(",\"gas\":");
    append_u64(out, t.gas);
    out.append(",\"input\":");
    append_quoted(out, t.input.as_str());
    out.append(",\"nonce\":");
    append_u64(out, t.nonce);
    out.append(",\"block_number\":");
    append_u64(out, t.block_number);
    out.append("}");
    proof {
        assert(final(out)@ =~= old(out)@ + json_of_tx_tail(t@));
    }
}

/// Renders one transaction as its canonical JSON object.
pub fn encode_tx(t: &Transaction) -> (s: String)
    ensures
        s@ == json_of_tx(t@),
{
    let mut out = String::from_str("{\"hash\":");
    append_quoted(&mut out, t.hash.as_str());
    out.append(",\"from\":");
    append_quoted(&mut out, t.from_address.as_str());
    out.append(",\"to\":");
    append_opt(&mut out, &t.to_address);
    out.append(",\"value\":");
    append_quoted(&mut out, t.value.as_str());
    out.append(",\"gas_price\":");
    append_quoted(&mut out, t.gas_price.as_str());
    append_tx_tail(&mut out, t);
    proof {
        assert(out@ =~= json_of_tx(t@));
    }
    out
}

/// Second half of the transaction parser: numeric fields and the close.
fn p_tx_tail<'a>(
    hash: String,
    from_address: String,
    to_address: Option<String>,
    value: String,
    gas_price: String,
    s10: &'a str,
) -> (r: Option<(Transaction, &'a str)>)
    ensures
        match r {
            Option::Some(p) => sp_tx_tail(
                hash@,
                from_address@,
                to_address.deep_view(),
                value@,
                gas_price@,
                s10@,
            ) == Option::Some((p.0@, p.1@)),
            Option::None => sp_tx_tail(
                hash@,
                from_address@,
                to_address.deep_view(),
                value@,
                gas_price@,
                s10@,
            ) is None,
        },
{
    let s11 = match p_lit(s10, ",\"gas\":") {
        Some(x) => x,
        None => {
            return None;
        },
    };
    let (gas, s12) = match p_u64(s11) {
        Some(x) => x,
        None => {
            return None;
        },
    };
    let s13 = match p_lit(s12, ",\"input\":") {
        Some(x) => x,
        None => {
            return None;
        },
    };
    let (input, s14) = match p_string(s13) {
        Some(x) => x,
        None => {
            return None;
        },
    };
    let s15 = match p_lit(s14, ",\"nonce\":") {
        Some(x) => x,
        None => {
            return None;
        },
    };
    let (nonce, s16) = match p_u64(s15) {
        Some(x) => x,
        None => {
            return None;
        },
    };
    let s17 = match p_lit(s16, ",\"block_number\":") {
        Some(x) => x,
        None => {
            return None;
        },
    };
    let (block_number, s18) = match p_u64(s17) {
        Some(x) => x,
        None => {
            return None;
        },
    };
    let s19 = match p_lit(s18, "}") {
        Some(x) => x,
        None => {
            return None;
        },
    };
    let tx = Transaction {
        hash,
        block_number,
        from_address,
        to_address,
        value,
        gas_price,
        gas,
        input,
        nonce,
    };
    Some((tx, s19))
}

/// Consumes one canonical transaction object from the front of `s`.
fn p_tx<'a>(s: &'a str) -> (r: Option<(Transaction, &'a str)>)
    ensures
        match r {
            Option::Some(p) => sp_tx(s@) == Option::Some((p.0@, p.1@)),
            Option::None => sp_tx(s@) is None,
        },
{
    let s1 = match p_lit(s, "{\"hash\":") {
        Some(x) => x,
        None => {
            return None;
        },
    };
    let (hash, s2) = match p_string(s1) {
        Some(x) => x,
        None => {
            return None;
        },
    };
    let s3 = match p_lit(s2, ",\"from\":") {
        Some(x) => x,
        None => {
            return None;
        },
    };
    let (from_address, s4) = match p_string(s3) {
        Some(x) => x,
        None => {
            return None;
        },
    };
    let s5 = match p_lit(s4, ",\"to\":") {
        Some(x) => x,
        None => {
            return None;
        },
    };
    let (to_address, s6) = match p_opt_string(s5) {
        Some(x) => x,
        None => {
            return None;
        },
    };
    let s7 = match p_lit(s6, ",\"value\":") {
        Some(x) => x,
        None => {
            return None;
        },
    };
    let (value, s8) = match p_string(s7) {
        Some(x) => x,
        None => {
            return None;
        },
    };
    let s9 = match p_lit(s8, ",\"gas_price\":") {
        Some(x) => x,
        None => {
            return None;
        },
    };
    let (gas_price, s10) = match p_string(s9) {
        Some(x) => x,
        None => {
            return None;
        },
    };
    p_tx_tail(hash, from_address, to_address, value, gas_price, s10)
}


// ------------------------------------------------------------------
// Transaction arrays
// ------------------------------------------------------------------

/// The comma-separated canonical renderings of `ts`, without brackets.
pub open spec fn json_of_txs(ts: Seq<TransactionV>) -> Seq<char>
    decreases ts.len(),
{
    if ts.len() == 0 {
        Seq::empty()
    } else {
        json_of_tx(ts[0]) + json_of_txs_rest(ts.skip(1))
    }
}

/// The renderings of `ts`, each preceded by a comma.
pub open spec fn json_of_txs_rest(ts: Seq<TransactionV>) -> Seq<char>
    decreases ts.len(),
{
    if ts.len() == 0 {
        Seq::empty()
    } else {
        ","@ + json_of_tx(ts[0]) + json_of_txs_rest(ts.skip(1))
    }
}

/// Consumes the body of a transaction array up to and including the
/// closing bracket.
pub open spec fn sp_txs(s: Seq<char>) -> Option<(Seq<TransactionV>, Seq<char>)> {
    match sp_lit(s, "]"@) {
        Option::Some(rest) => Option::Some((Seq::empty(), rest)),
        Option::None => match sp_tx(s) {
            Option::None => Option::None,
            Option::Some((t, s1)) => if s1.len() < s.len() {
                match sp_txs_rest(s1) {
                    Option::Some((ts, rest)) => Option::Some((seq![t] + ts, rest)),
                    Option::None => Option::None,
                }
            } else {
                Option::None
            },
        },
    }
}

/// Consumes `,`-prefixed transactions until the closing bracket.
pub open spec fn sp_txs_rest(s: Seq<char>) -> Option<(Seq<TransactionV>, Seq<char>)>
    decreases s.len(),
{
    match sp_lit(s, "]"@) {
        Option::Some(rest) => Option::Some((Seq::empty(), rest)),
        Option::None => match sp_lit(s, ","@) {
            Option::None => Option::None,
            Option::Some(s1) => match sp_tx(s1) {
                Option::None => Option::None,
                Option::Some((t, s2)) => if s2.len() < s.len() {
                    match sp_txs_rest(s2) {
                        Option::Some((ts, rest)) => Option::Some((seq![t] + ts, rest)),
                        Option::None => Option::None,
                    }
                } else {
                    Option::None
                },
            },
        },
    }
}

proof fn lemma_scan_quote_bounds(s: Seq<char>)
    ensures
        scan_quote(s) is Some ==> 0 <= scan_quote(s).unwrap() < s.len(),
    decreases s.len(),
{
    if s.len() > 0 && s[0] != '"' && plain_char(s[0]) {
        lemma_scan_quote_bounds(s.skip(1));
    }
}

proof fn lemma_sp_string_len(s: Seq<char>)
    ensures
        sp_string(s) is Some ==> sp_string(s).unwrap().1.len() < s.len(),
{
    if sp_string(s) is Some {
        lemma_scan_quote_bounds(s.skip(1));
    }
}

proof fn lemma_sp_digits_len(s: Seq<char>, acc: nat)
    ensures
        sp_digits(s, acc).1.len() <= s.len(),
        s.len() > 0 && is_digit(s[0]) ==> sp_digits(s, acc).1.len() < s.len(),
    decreases s.len(),
{
    if s.len() > 0 && is_digit(s[0]) {
        lemma_sp_digits_len(s.skip(1), acc * 10 + digit_val(s[0]));
    }
}

proof fn lemma_sp_u64_len(s: Seq<char>)
    ensures
        sp_u64(s) is Some ==> sp_u64(s).unwrap().1.len() < s.len(),
{
    if sp_u64(s) is Some {
        lemma_sp_digits_len(s, 0);
    }
}

proof fn lemma_sp_opt_string_len(s: Seq<char>)
    ensures
        sp_opt_string(s) is Some ==> sp_opt_string(s).unwrap().1.len() < s.len(),
{
    reveal_strlit("null");
    lemma_sp_string_len(s);
}

/// A parsed transaction consumes at least one character.
proof fn lemma_sp_tx_tail_len(
    hash: Seq<char>,
    from_address: Seq<char>,
    to_address: Option<Seq<char>>,
    value: Seq<char>,
    gas_price: Seq<char>,
    s10: Seq<char>,
)
    ensures
        sp_tx_tail(hash, from_address, to_address, value, gas_price, s10) is Some
            ==> sp_tx_tail(hash, from_address, to_address, value, gas_price, s10).unwrap().1.len()
            < s10.len(),
{
    reveal_strlit(",\"gas\":");
    if sp_tx_tail(hash, from_address, to_address, value, gas_price, s10) is Some {
        let s11 = sp_lit(s10, ",\"gas\":"@).unwrap();
        let (gas, s12) = sp_u64(s11).unwrap();
        lemma_sp_u64_len(s11);
        let s13 = sp_lit(s12, ",\"input\":"@).unwrap();
        let (input, s14) = sp_string(s13).unwrap();
        lemma_sp_string_len(s13);
        let s15 = sp_lit(s14, ",\"nonce\":"@).unwrap();
        let (nonce, s16) = sp_u64(s15).unwrap();
        lemma_sp_u64_len(s15);
        let s17 = sp_lit(s16, ",\"block_number\":"@).unwrap();
        let (block_number, s18) = sp_u64(s17).unwrap();
        lemma_sp_u64_len(s17);
        let s19 = sp_lit(s18, "}"@).unwrap();
    }
}

proof fn lemma_sp_tx_len(s: Seq<char>)
    ensures
        sp_tx(s) is Some ==> sp_tx(s).unwrap().1.len() < s.len(),
{
    reveal_strlit("{\"hash\":");
    if sp_tx(s) is Some {
        let s1 = sp_lit(s, "{\"hash\":"@).unwrap();
        let (hash, s2) = sp_string(s1).unwrap();
        lemma_sp_string_len(s1);
        let s3 = sp_lit(s2, ",\"from\":"@).unwrap();
        let (from_address, s4) = sp_string(s3).unwrap();
        lemma_sp_string_len(s3);
        let s5 = sp_lit(s4, ",\"to\":"@).unwrap();
        let (to_address, s6) = sp_opt_string(s5).unwrap();
        lemma_sp_opt_string_len(s5);
        let s7 = sp_lit(s6, ",\"value\":"@).unwrap();
        let (value, s8) = sp_string(s7).unwrap();
        lemma_sp_string_len(s7);
        let s9 = sp_lit(s8, ",\"gas_price\":"@).unwrap();
        let (gas_price, s10) = sp_string(s9).unwrap();
        lemma_sp_string_len(s9);
        lemma_sp_tx_tail_len(hash, from_address, to_address, value, gas_price, s10);
    }
}

/// Parsing the canonical rendering of a transaction list (with its
/// closing bracket appended) gives the list back.
#[verifier::rlimit(100)]
#[verifier::spinoff_prover]
proof fn lemma_sp_txs_rest_of(ts: Seq<TransactionV>, rest: Seq<char>)
    requires
        forall|i: int|
            0 <= i < ts.len() ==> wf_transaction(#[trigger] ts[i], ts[i].block_number),
    ensures
        sp_txs_rest(json_of_txs_rest(ts) + ("]"@ + rest)) == Option::Some((ts, rest)),
    decreases ts.len(),
{
    reveal_strlit("]");
    reveal_strlit(",");
    reveal_strlit("{\"hash\":");
    let s = json_of_txs_rest(ts) + ("]"@ + rest);
    if ts.len() == 0 {
        assert(s =~= "]"@ + rest);
        lemma_sp_lit_of("]"@, rest);
    } else {
        let tail2 = json_of_txs_rest(ts.skip(1)) + ("]"@ + rest);
        let tail1 = json_of_tx(ts[0]) + tail2;
        assert(s =~= ","@ + tail1);
        assert(s[0] == ',');
        assert(sp_lit(s, "]"@) is None) by {
            if sp_lit(s, "]"@) is Some {
                assert(s.take(1)[0] == s[0]);
            }
        }
        lemma_sp_lit_of(","@, tail1);
        lemma_sp_tx_of(ts[0], tail2);
        assert(tail2.len() < s.len());
        lemma_sp_txs_rest_of(ts.skip(1), rest);
        assert(seq![ts[0]] + ts.skip(1) =~= ts);
    }
}

#[verifier::rlimit(100)]
#[verifier::spinoff_prover]
proof fn lemma_sp_txs_of(ts: Seq<TransactionV>, rest: Seq<char>)
    requires
        forall|i: int|
            0 <= i < ts.len() ==> wf_transaction(#[trigger] ts[i], ts[i].block_number),
    ensures
        sp_txs(json_of_txs(ts) + ("]"@ + rest)) == Option::Some((ts, rest)),
{
    reveal_strlit("]");
    reveal_strlit("{\"hash\":");
    let s = json_of_txs(ts) + ("]"@ + rest);
    if ts.len() == 0 {
        assert(s =~= "]"@ + rest);
        lemma_sp_lit_of("]"@, rest);
    } else {
        let tail2 = json_of_txs_rest(ts.skip(1)) + ("]"@ + rest);
        assert(s =~= json_of_tx(ts[0]) + tail2);
        assert(s[0] == '{');
        assert(sp_lit(s, "]"@) is None) by {
            if sp_lit(s, "]"@) is Some {
                assert(s.take(1)[0] == s[0]);
            }
        }
        lemma_sp_tx_of(ts[0], tail2);
        assert(tail2.len() < s.len());
        lemma_sp_txs_rest_of(ts.skip(1), rest);
        assert(seq![ts[0]] + ts.skip(1) =~= ts);
    }
}

proof fn lemma_json_of_txs_rest_snoc(ts: Seq<TransactionV>, t: TransactionV)
    ensures
        json_of_txs_rest(ts.push(t)) =~= json_of_txs_rest(ts) + (","@ + json_of_tx(t)),
    decreases ts.len(),
{
    if ts.len() == 0 {
        assert(ts.push(t).skip(1) =~= Seq::<TransactionV>::empty());
        assert(ts.push(t)[0] == t);
        assert(json_of_txs_rest(ts.push(t)) == ","@ + json_of_tx(t) + json_of_txs_rest(
            Seq::<TransactionV>::empty(),
        ));
        assert(json_of_txs_rest(ts) == Seq::<char>::empty());
        assert(json_of_txs_rest(ts.push(t)) =~= json_of_txs_rest(ts) + (","@ + json_of_tx(t)));
    } else {
        assert(ts.push(t).skip(1) =~= ts.skip(1).push(t));
        assert(ts.push(t)[0] == ts[0]);
        lemma_json_of_txs_rest_snoc(ts.skip(1), t);
        let a = ","@ + json_of_tx(ts[0]);
        let r1 = json_of_txs_rest(ts.skip(1));
        let c = ","@ + json_of_tx(t);
        assert(json_of_txs_rest(ts.push(t)) == a + (r1 + c));
        assert(a + (r1 + c) =~= (a + r1) + c);
        assert(json_of_txs_rest(ts) == a + r1);
        assert(json_of_txs_rest(ts.push(t)) =~= json_of_txs_rest(ts) + c);
    }
}

proof fn lemma_json_of_txs_snoc(ts: Seq<TransactionV>, t: TransactionV)
    ensures
        ts.len() == 0 ==> json_of_txs(ts.push(t)) =~= json_of_tx(t),
        ts.len() > 0 ==> json_of_txs(ts.push(t)) =~= json_of_txs(ts) + (","@ + json_of_tx(t)),
{
    if ts.len() == 0 {
        assert(ts.push(t).skip(1) =~= Seq::<TransactionV>::empty());
        assert(ts.push(t)[0] == t);
    } else {
        assert(ts.push(t).skip(1) =~= ts.skip(1).push(t));
        assert(ts.push(t)[0] == ts[0]);
        lemma_json_of_txs_rest_snoc(ts.skip(1), t);
    }
}

/// Appends the comma-separated renderings of `txs`.
fn append_txs(out: &mut String, txs: &Vec<Transaction>)
    ensures
        final(out)@ == old(out)@ + json_of_txs(txs.deep_view()),
{
    let ghost base = out@;
    let mut i: usize = 0;
    while i < txs.len()
        invariant
            0 <= i <= txs@.len(),
            out@ =~= base + json_of_txs(txs.deep_view().take(i as int)),
        decreases txs@.len() - i,
    {
        proof {
            assert(txs.deep_view().take(i as int + 1) =~= txs.deep_view().take(i as int).push(
                txs.deep_view()[i as int],
            ));
            lemma_json_of_txs_snoc(txs.deep_view().take(i as int), txs.deep_view()[i as int]);
        }
        if i > 0 {
            out.append(",");
        }
        let piece = encode_tx(&txs[i]);
        out.append(piece.as_str());
        proof {
            reveal_strlit(",");
            assert(out@ =~= base + json_of_txs(txs.deep_view().take(i as int + 1)));
        }
        i = i + 1;
    }
    proof {
        assert(txs.deep_view().take(txs@.len() as int) =~= txs.deep_view());
    }
}

/// Renders the transactions of a block as a canonical JSON array, the
/// form the block row stores them in.
pub fn encode_transactions_json(txs: &Vec<Transaction>) -> (s: String)
    ensures
        s@ == "["@ + json_of_txs(txs.deep_view()) + "]"@,
{
    let mut out = String::from_str("[");
    append_txs(&mut out, txs);
    out.append("]");
    proof {
        assert(out@ =~= "["@ + json_of_txs(txs.deep_view()) + "]"@);
    }
    out
}

/// Consumes the body of a transaction array (through its closing bracket)
/// from the front of `s`.
fn p_txs<'a>(s: &'a str) -> (r: Option<(Vec<Transaction>, &'a str)>)
    ensures
        match r {
            Option::Some(p) => sp_txs(s@) == Option::Some((p.0.deep_view(), p.1@)),
            Option::None => sp_txs(s@) is None,
        },
{
    let mut acc: Vec<Transaction> = Vec::new();
    match p_lit(s, "]") {
        Some(rest) => {
            proof {
                assert(acc.deep_view() =~= Seq::<TransactionV>::empty());
            }
            return Some((acc, rest));
        },
        None => {},
    }
    let (t0, s1) = match p_tx(s) {
        Some(x) => x,
        None => {
            return None;
        },
    };
    proof {
        lemma_sp_tx_len(s@);
    }
    acc.push(t0);
    let mut cur: &str = s1;
    proof {
        assert(acc.deep_view() =~= seq![t0@]);
    }
    loop
        invariant
            sp_txs(s@) == (match sp_txs_rest(cur@) {
                Option::Some((ts, r)) => Option::Some((acc.deep_view() + ts, r)),
                Option::None => Option::None::<(Seq<TransactionV>, Seq<char>)>,
            }),
        decreases cur@.len(),
    {
        match p_lit(cur, "]") {
            Some(rest) => {
                proof {
                    assert(acc.deep_view() + Seq::<TransactionV>::empty() =~= acc.deep_view());
                }
                return Some((acc, rest));
            },
            None => {},
        }
        let s2 = match p_lit(cur, ",") {
            Some(x) => x,
            None => {
                return None;
            },
        };
        let (t, s3) = match p_tx(s2) {
            Some(x) => x,
            None => {
                return None;
            },
        };
        proof {
            lemma_sp_tx_len(s2@);
            reveal_strlit(",");
            assert(s2@.len() < cur@.len());
            assert(acc.deep_view().push(t@) =~= acc.deep_view() + seq![t@]);
            assert forall|ts: Seq<TransactionV>| true implies (acc.deep_view() + seq![t@]) + ts
                =~= acc.deep_view() + (seq![t@] + ts) by {}
        }
        let ghost old_acc = acc.deep_view();
        acc.push(t);
        proof {
            assert(acc.deep_view() =~= old_acc.push(t@));
        }
        cur = s3;
    }
}

// ------------------------------------------------------------------
// Whole messages
// ------------------------------------------------------------------

/// Second half of the canonical rendering, from the size field on.
pub open spec fn json_of_message_tail(b: BlockV) -> Seq<char> {
    ",\"size\":"@ + dec_of(b.size as nat) + ",\"receipts_root\":"@ + quoted(b.receipts_root)
        + ",\"tx_count\":"@ + dec_of(b.transactions.len()) + ",\"transactions\":["@ + json_of_txs(
        b.transactions,
    ) + "]"@ + "}"@
}

/// Middle of the canonical rendering, from the timestamp through the gas
/// limit, continuing with the tail.
pub open spec fn json_of_message_mid(b: BlockV) -> Seq<char> {
    ",\"timestamp\":"@ + dec_of(b.timestamp as nat) + ",\"miner\":"@ + quoted(b.miner)
        + ",\"difficulty\":"@ + quoted(b.difficulty) + ",\"gas_used\":"@ + dec_of(
        b.gas_used as nat,
    ) + ",\"gas_limit\":"@ + dec_of(b.gas_limit as nat) + json_of_message_tail(b)
}

/// The canonical JSON rendering of the message for one block of one chain:
/// exactly what a producer publishes on the channel.
pub open spec fn json_of_message(chain: Seq<char>, b: BlockV) -> Seq<char> {
    "{\"chain_name\":"@ + quoted(chain) + ",\"block_number\":"@ + dec_of(b.number as nat)
        + ",\"hash\":"@ + quoted(b.hash) + ",\"parent_hash\":"@ + quoted(b.parent_hash)
        + json_of_message_mid(b)
}

/// Parses a whole canonical message; accepts nothing else. The stated
/// transaction count must match the array, every transaction must name the
/// block, and no input may remain.
pub open spec fn sp_message(s: Seq<char>) -> Option<MessageV> {
    match sp_lit(s, "{\"chain_name\":"@) {
        Option::None => Option::None,
        Option::Some(s1) => match sp_string(s1) {
            Option::None => Option::None,
            Option::Some((chain_name, s2)) => match sp_lit(s2, ",\"block_number\":"@) {
                Option::None => Option::None,
                Option::Some(s3) => match sp_u64(s3) {
                    Option::None => Option::None,
                    Option::Some((number, s4)) => match sp_lit(s4, ",\"hash\":"@) {
                        Option::None => Option::None,
                        Option::Some(s5) => match sp_string(s5) {
                            Option::None => Option::None,
                            Option::Some((hash, s6)) => match sp_lit(s6, ",\"parent_hash\":"@) {
                                Option::None => Option::None,
                                Option::Some(s7) => match sp_string(s7) {
                                    Option::None => Option::None,
                                    Option::Some((parent_hash, s8)) => sp_message_mid(
                                        chain_name,
                                        number,
                                        hash,
                                        parent_hash,
                                        s8,
                                    ),
                                },
                            },
                        },
                    },
                },
            },
        },
    }
}

/// Middle part of `sp_message`: timestamp through gas limit.
pub open spec fn sp_message_mid(
    chain_name: Seq<char>,
    number: u64,
    hash: Seq<char>,
    parent_hash: Seq<char>,
    s8: Seq<char>,
) -> Option<MessageV> {
    match sp_lit(s8, ",\"timestamp\":"@) {
        Option::None => Option::None,
        Option::Some(s9) => match sp_u64(s9) {
            Option::None => Option::None,
            Option::Some((timestamp, s10)) => match sp_lit(s10, ",\"miner\":"@) {
                Option::None => Option::None,
                Option::Some(s11) => match sp_string(s11) {
                    Option::None => Option::None,
                    Option::Some((miner, s12)) => match sp_lit(s12, ",\"difficulty\":"@) {
                        Option::None => Option::None,
                        Option::Some(s13) => match sp_string(s13) {
                            Option::None => Option::None,
                            Option::Some((difficulty, s14)) => match sp_lit(
                                s14,
                                ",\"gas_used\":"@,
                            ) {
                                Option::None => Option::None,
                                Option::Some(s15) => match sp_u64(s15) {
                                    Option::None => Option::None,
                                    Option::Some((gas_used, s16)) => match sp_lit(
                                        s16,
                                        ",\"gas_limit\":"@,
                                    ) {
                                        Option::None => Option::None,
                                        Option::Some(s17) => match sp_u64(s17) {
                                            Option::None => Option::None,
                                            Option::Some((gas_limit, s18)) => sp_message_tail(
                                                chain_name,
                                                number,
                                                hash,
                                                parent_hash,
                                                timestamp,
                                                miner,
                                                difficulty,
                                                gas_used,
                                                gas_limit,
                                                s18,
                                            ),
                                        },
                                    },
                                },
                            },
                        },
                    },
                },
            },
        },
    }
}

/// Second half of `sp_message`: size, receipts root, transaction count,
/// the array, the closing brace, and the consistency checks.
pub open spec fn sp_message_tail(
    chain_name: Seq<char>,
    number: u64,
    hash: Seq<char>,
    parent_hash: Seq<char>,
    timestamp: u64,
    miner: Seq<char>,
    difficulty: Seq<char>,
    gas_used: u64,
    gas_limit: u64,
    s18: Seq<char>,
) -> Option<MessageV> {
    match sp_lit(s18, ",\"size\":"@) {
        Option::None => Option::None,
        Option::Some(s19) => match sp_u64(s19) {
            Option::None => Option::None,
            Option::Some((size, s20)) => match sp_lit(s20, ",\"receipts_root\":"@) {
                Option::None => Option::None,
                Option::Some(s21) => match sp_string(s21) {
                    Option::None => Option::None,
                    Option::Some((receipts_root, s22)) => match sp_lit(s22, ",\"tx_count\":"@) {
                        Option::None => Option::None,
                        Option::Some(s23) => match sp_u64(s23) {
                            Option::None => Option::None,
                            Option::Some((tx_count, s24)) => match sp_lit(
                                s24,
                                ",\"transactions\":["@,
                            ) {
                                Option::None => Option::None,
                                Option::Some(s25) => match sp_txs(s25) {
                                    Option::None => Option::None,
                                    Option::Some((transactions, s26)) => match sp_lit(s26, "}"@) {
                                        Option::None => Option::None,
                                        Option::Some(s27) => if s27.len() == 0 && tx_count as nat
                                            == transactions.len() && (forall|i: int|
                                            0 <= i < transactions.len()
                                                ==> (#[trigger] transactions[i]).block_number
                                                == number) {
                                            Option::Some(
                                                MessageV {
                                                    chain_name,
                                                    block: BlockV {
                                                        number,
                                                        hash,
                                                        parent_hash,
                                                        timestamp,
                                                        miner,
                                                        difficulty,
                                                        gas_used,
                                                        gas_limit,
                                                        size,
                                                        receipts_root,
                                                        transactions,
                                                    },
                                                },
                                            )
                                        } else {
                                            Option::None
                                        },
                                    },
                                },
                            },
                        },
                    },
                },
            },
        },
    }
}

/// Round-trip law of the wire format: the canonical rendering of any
/// well-formed message parses back to exactly that message. Together with
/// the contracts of `encode_block_message` and `decode_block_message` this
/// makes a message's content deterministic given its chain and block.
#[verifier::rlimit(100)]
#[verifier::spinoff_prover]
proof fn lemma_sp_message_tail_of(m: MessageV)
    requires
        wf_message(m),
    ensures
        sp_message_tail(
            m.chain_name,
            m.block.number,
            m.block.hash,
            m.block.parent_hash,
            m.block.timestamp,
            m.block.miner,
            m.block.difficulty,
            m.block.gas_used,
            m.block.gas_limit,
            json_of_message_tail(m.block),
        ) == Option::Some(m),
{
    let b = m.block;
    let s28 = Seq::<char>::empty();
    let s27e = "}"@ + s28;
    let s26 = "]"@ + s27e;
    let s25 = json_of_txs(b.transactions) + s26;
    let s24e = ",\"transactions\":["@ + s25;
    let s24 = dec_of(b.transactions.len()) + s24e;
    let s23e = ",\"tx_count\":"@ + s24;
    let s23 = quoted(b.receipts_root) + s23e;
    let s22e = ",\"receipts_root\":"@ + s23;
    let s22 = dec_of(b.size as nat) + s22e;
    let s21e = ",\"size\":"@ + s22;
    assert(json_of_message_tail(b) =~= s21e);
    lemma_sp_lit_of(",\"size\":"@, s22);
    assert(s22e[0] == ',') by {
        reveal_strlit(",\"receipts_root\":");
    }
    lemma_sp_u64_of(b.size, s22e);
    lemma_sp_lit_of(",\"receipts_root\":"@, s23);
    lemma_sp_string_of(b.receipts_root, s23e);
    lemma_sp_lit_of(",\"tx_count\":"@, s24);
    assert(s24e[0] == ',') by {
        reveal_strlit(",\"transactions\":[");
    }
    assert(b.transactions.len() <= u64::MAX);
    assert(dec_of((b.transactions.len() as u64) as nat) == dec_of(b.transactions.len()));
    lemma_sp_u64_of(b.transactions.len() as u64, s24e);
    lemma_sp_lit_of(",\"transactions\":["@, s25);
    assert(forall|i: int|
        0 <= i < b.transactions.len() ==> wf_transaction(
            #[trigger] b.transactions[i],
            b.transactions[i].block_number,
        ));
    assert(s25 =~= json_of_txs(b.transactions) + ("]"@ + s27e));
    lemma_sp_txs_of(b.transactions, s27e);
    lemma_sp_lit_of("}"@, s28);
    let mm = MessageV {
        chain_name: m.chain_name,
        block: BlockV {
            number: b.number,
            hash: b.hash,
            parent_hash: b.parent_hash,
            timestamp: b.timestamp,
            miner: b.miner,
            difficulty: b.difficulty,
            gas_used: b.gas_used,
            gas_limit: b.gas_limit,
            size: b.size,
            receipts_root: b.receipts_root,
            transactions: b.transactions,
        },
    };
    assert(mm =~= m);
}

#[verifier::rlimit(100)]
#[verifier::spinoff_prover]
proof fn lemma_sp_message_mid_of(m: MessageV)
    requires
        wf_message(m),
    ensures
        sp_message_mid(
            m.chain_name,
            m.block.number,
            m.block.hash,
            m.block.parent_hash,
            json_of_message_mid(m.block),
        ) == Option::Some(m),
{
    let b = m.block;
    let s18e = json_of_message_tail(b);
    let s21 = dec_of(b.gas_limit as nat) + s18e;
    let s20e = ",\"gas_limit\":"@ + s21;
    let s20 = dec_of(b.gas_used as nat) + s20e;
    let s19e = ",\"gas_used\":"@ + s20;
    let s19 = quoted(b.difficulty) + s19e;
    let s18x = ",\"difficulty\":"@ + s19;
    let s18q = quoted(b.miner) + s18x;
    let s17e = ",\"miner\":"@ + s18q;
    let s17 = dec_of(b.timestamp as nat) + s17e;
    let s16e = ",\"timestamp\":"@ + s17;
    assert(json_of_message_mid(b) =~= s16e);
    lemma_sp_lit_of(",\"timestamp\":"@, s17);
    assert(s17e[0] == ',') by {
        reveal_strlit(",\"miner\":");
    }
    lemma_sp_u64_of(b.timestamp, s17e);
    lemma_sp_lit_of(",\"miner\":"@, s18q);
    lemma_sp_string_of(b.miner, s18x);
    lemma_sp_lit_of(",\"difficulty\":"@, s19);
    lemma_sp_string_of(b.difficulty, s19e);
    lemma_sp_lit_of(",\"gas_used\":"@, s20);
    assert(s20e[0] == ',') by {
        reveal_strlit(",\"gas_limit\":");
    }
    lemma_sp_u64_of(b.gas_used, s20e);
    lemma_sp_lit_of(",\"gas_limit\":"@, s21);
    assert(s18e[0] == ',') by {
        reveal_strlit(",\"size\":");
    }
    lemma_sp_u64_of(b.gas_limit, s18e);
    lemma_sp_message_tail_of(m);
}

#[verifier::rlimit(100)]
#[verifier::spinoff_prover]
pub proof fn lemma_wire_round_trip(m: MessageV)
    requires
        wf_message(m),
    ensures
        sp_message(json_of_message(m.chain_name, m.block)) == Option::Some(m),
{
    let b = m.block;
    let s8 = json_of_message_mid(b);
    let s16 = quoted(b.parent_hash) + s8;
    let s15e = ",\"parent_hash\":"@ + s16;
    let s15 = quoted(b.hash) + s15e;
    let s14e = ",\"hash\":"@ + s15;
    let s14 = dec_of(b.number as nat) + s14e;
    let s13e = ",\"block_number\":"@ + s14;
    let s13 = quoted(m.chain_name) + s13e;
    let s0 = "{\"chain_name\":"@ + s13;
    assert(json_of_message(m.chain_name, m.block) =~= s0);
    lemma_sp_lit_of("{\"chain_name\":"@, s13);
    lemma_sp_string_of(m.chain_name, s13e);
    lemma_sp_lit_of(",\"block_number\":"@, s14);
    assert(s14e[0] == ',') by {
        reveal_strlit(",\"hash\":");
    }
    lemma_sp_u64_of(b.number, s14e);
    lemma_sp_lit_of(",\"hash\":"@, s15);
    lemma_sp_string_of(b.hash, s15e);
    lemma_sp_lit_of(",\"parent_hash\":"@, s16);
    lemma_sp_string_of(b.parent_hash, s8);
    lemma_sp_message_mid_of(m);
    assert(sp_message(s0) == Option::Some(m));
}

/// Appends the tail of the rendering, from the size field on.
#[verifier::rlimit(100)]
fn append_message_tail(out: &mut String, block: &Block)
    ensures
        final(out)@ == old(out)@ + json_of_message_tail(block@),
{
    out.append(",\"size\":");
    append_u64(out, block.size);
    out.append(",\"receipts_root\":");
    append_quoted(out, block.receipts_root.as_str());
    out.append(",\"tx_count\":");
    append_u64(out, block.transactions.len() as u64);
    out.append(",\"transactions\":[");
    append_txs(out, &block.transactions);
    out.append("]");
    out.append("}");
    proof {
        assert(final(out)@ =~= old(out)@ + json_of_message_tail(block@));
    }
}

/// Appends the middle of the rendering, timestamp through gas limit, and
/// then the tail.
#[verifier::rlimit(100)]
fn append_message_mid(out: &mut String, block: &Block)
    ensures
        final(out)@ == old(out)@ + json_of_message_mid(block@),
{
    out.append(",\"timestamp\":");
    append_u64(out, block.timestamp);
    out.append(",\"miner\":");
    append_quoted(out, block.miner.as_str());
    out.append(",\"difficulty\":");
    append_quoted(out, block.difficulty.as_str());
    out.append(",\"gas_used\":");
    append_u64(out, block.gas_used);
    out.append(",\"gas_limit\":");
    append_u64(out, block.gas_limit);
    append_message_tail(out, block);
    proof {
        assert(final(out)@ =~= old(out)@ + json_of_message_mid(block@));
    }
}

/// Renders the message for `block` of chain `chain_name` as the canonical
/// JSON wire payload.
pub fn encode_block_message(chain_name: &str, block: &Block) -> (s: String)
    ensures
        s@ == json_of_message(chain_name@, block@),
{
    let mut out = String::from_str("{\"chain_name\":");
    append_quoted(&mut out, chain_name);
    out.append(",\"block_number\":");
    append_u64(&mut out, block.number);
    out.append(",\"hash\":");
    append_quoted(&mut out, block.hash.as_str());
    out.append(",\"parent_hash\":");
    append_quoted(&mut out, block.parent_hash.as_str());
    append_message_mid(&mut out, block);
    proof {
        assert(out@ =~= json_of_message(chain_name@, block@));
    }
    out
}

/// Parses a wire payload back into a message; `None` on anything but a
/// canonical rendering — the poison-message case the persister must skip.
pub fn decode_block_message(s: &str) -> (r: Option<BlockMessage>)
    ensures
        match r {
            Option::Some(m) => sp_message(s@) == Option::Some(m@),
            Option::None => sp_message(s@) is None,
        },
{
    let s1 = match p_lit(s, "{\"chain_name\":") {
        Some(x) => x,
        None => {
            return None;
        },
    };
    let (chain_name, s2) = match p_string(s1) {
        Some(x) => x,
        None => {
            return None;
        },
    };
    let s3 = match p_lit(s2, ",\"block_number\":") {
        Some(x) => x,
        None => {
            return None;
        },
    };
    let (number, s4) = match p_u64(s3) {
        Some(x) => x,
        None => {
            return None;
        },
    };
    let s5 = match p_lit(s4, ",\"hash\":") {
        Some(x) => x,
        None => {
            return None;
        },
    };
    let (hash, s6) = match p_string(s5) {
        Some(x) => x,
        None => {
            return None;
        },
    };
    let s7 = match p_lit(s6, ",\"parent_hash\":") {
        Some(x) => x,
        None => {
            return None;
        },
    };
    let (parent_hash, s8) = match p_string(s7) {
        Some(x) => x,
        None => {
            return None;
        },
    };
    decode_message_mid(chain_name, number, hash, parent_hash, s8)
}

/// Middle of the wire-payload parser: timestamp through gas limit.
fn decode_message_mid(
    chain_name: String,
    number: u64,
    hash: String,
    parent_hash: String,
    s8: &str,
) -> (r: Option<BlockMessage>)
    ensures
        match r {
            Option::Some(m) => sp_message_mid(chain_name@, number, hash@, parent_hash@, s8@)
                == Option::Some(m@),
            Option::None => sp_message_mid(chain_name@, number, hash@, parent_hash@, s8@) is None,
        },
{
    let s9 = match p_lit(s8, ",\"timestamp\":") {
        Some(x) => x,
        None => {
            return None;
        },
    };
    let (timestamp, s10) = match p_u64(s9) {
        Some(x) => x,
        None => {
            return None;
        },
    };
    let s11 = match p_lit(s10, ",\"miner\":") {
        Some(x) => x,
        None => {
            return None;
        },
    };
    let (miner, s12) = match p_string(s11) {
        Some(x) => x,
        None => {
            return None;
        },
    };
    let s13 = match p_lit(s12, ",\"difficulty\":") {
        Some(x) => x,
        None => {
            return None;
        },
    };
    let (difficulty, s14) = match p_string(s13) {
        Some(x) => x,
        None => {
            return None;
        },
    };
    let s15 = match p_lit(s14, ",\"gas_used\":") {
        Some(x) => x,
        None => {
            return None;
        },
    };
    let (gas_used, s16) = match p_u64(s15) {
        Some(x) => x,
        None => {
            return None;
        },
    };
    let s17 = match p_lit(s16, ",\"gas_limit\":") {
        Some(x) => x,
        None => {
            return None;
        },
    };
    let (gas_limit, s18) = match p_u64(s17) {
        Some(x) => x,
        None => {
            return None;
        },
    };
    decode_message_tail(
        chain_name,
        number,
        hash,
        parent_hash,
        timestamp,
        miner,
        difficulty,
        gas_used,
        gas_limit,
        s18,
    )
}

/// Tail of the wire-payload parser: size through the final checks.
fn decode_message_tail(
    chain_name: String,
    number: u64,
    hash: String,
    parent_hash: String,
    timestamp: u64,
    miner: String,
    difficulty: String,
    gas_used: u64,
    gas_limit: u64,
    s18: &str,
) -> (r: Option<BlockMessage>)
    ensures
        match r {
            Option::Some(m) => sp_message_tail(
                chain_name@,
                number,
                hash@,
                parent_hash@,
                timestamp,
                miner@,
                difficulty@,
                gas_used,
                gas_limit,
                s18@,
            ) == Option::Some(m@),
            Option::None => sp_message_tail(
                chain_name@,
                number,
                hash@,
                parent_hash@,
                timestamp,
                miner@,
                difficulty@,
                gas_used,
                gas_limit,
                s18@,
            ) is None,
        },
{
    let s19 = match p_lit(s18, ",\"size\":") {
        Some(x) => x,
        None => {
            return None;
        },
    };
    let (size, s20) = match p_u64(s19) {
        Some(x) => x,
        None => {
            return None;
        },
    };
    let s21 = match p_lit(s20, ",\"receipts_root\":") {
        Some(x) => x,
        None => {
            return None;
        },
    };
    let (receipts_root, s22) = match p_string(s21) {
        Some(x) => x,
        None => {
            return None;
        },
    };
    let s23 = match p_lit(s22, ",\"tx_count\":") {
        Some(x) => x,
        None => {
            return None;
        },
    };
    let (tx_count, s24) = match p_u64(s23) {
        Some(x) => x,
        None => {
            return None;
        },
    };
    let s25 = match p_lit(s24, ",\"transactions\":[") {
        Some(x) => x,
        None => {
            return None;
        },
    };
    let (transactions, s26) = match p_txs(s25) {
        Some(x) => x,
        None => {
            return None;
        },
    };
    let s27 = match p_lit(s26, "}") {
        Some(x) => x,
        None => {
            return None;
        },
    };
    if s27.unicode_len() != 0 {
        return None;
    }
    if tx_count != transactions.len() as u64 {
        return None;
    }
    let mut i: usize = 0;
    let mut ok = true;
    while i < transactions.len()
        invariant
            0 <= i <= transactions@.len(),
            ok ==> forall|k: int|
                0 <= k < i ==> (#[trigger] transactions.deep_view()[k]).block_number == number,
            !ok ==> exists|k: int|
                0 <= k < i && (#[trigger] transactions.deep_view()[k]).block_number != number,
        decreases transactions@.len() - i,
    {
        if transactions[i].block_number != number {
            proof {
                assert(transactions.deep_view()[i as int].block_number != number);
            }
            ok = false;
        }
        i = i + 1;
    }
    if !ok {
        return None;
    }
    let ghost chain_name_v = chain_name@;
    let ghost hash_v = hash@;
    let ghost parent_hash_v = parent_hash@;
    let ghost miner_v = miner@;
    let ghost difficulty_v = difficulty@;
    let block = Block {
        number,
        hash,
        parent_hash,
        timestamp,
        miner,
        difficulty,
        gas_used,
        gas_limit,
        size,
        receipts_root,
        transactions,
    };
    let m = BlockMessage { chain_name, block };
    proof {
        assert(sp_message_tail(
            chain_name_v,
            number,
            hash_v,
            parent_hash_v,
            timestamp,
            miner_v,
            difficulty_v,
            gas_used,
            gas_limit,
            s18@,
        ) == Option::Some(m@));
    }
    Some(m)
}

} // verus!
