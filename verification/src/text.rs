//! Decimal and hexadecimal rendering of numbers for messages and JSON.

use vstd::prelude::*;

verus! {

/// Lowercase digit `d` (0 to 15).
pub open spec fn digit_char(d: int) -> char {
    if d == 0 { '0' } else if d == 1 { '1' } else if d == 2 { '2' } else if d == 3 { '3' }
    else if d == 4 { '4' } else if d == 5 { '5' } else if d == 6 { '6' } else if d == 7 { '7' }
    else if d == 8 { '8' } else if d == 9 { '9' } else if d == 10 { 'a' } else if d == 11 { 'b' }
    else if d == 12 { 'c' } else if d == 13 { 'd' } else if d == 14 { 'e' } else { 'f' }
}

/// Decimal digits of `n`, most significant first, without leading zeros.
pub open spec fn dec_chars(n: nat) -> Seq<char>
    decreases n,
{
    if n < 10 {
        seq![digit_char(n as int)]
    } else {
        dec_chars(n / 10).push(digit_char((n % 10) as int))
    }
}

/// Lowercase hexadecimal digits of `n`, most significant first, without leading zeros.
pub open spec fn hex_chars(n: nat) -> Seq<char>
    decreases n,
{
    if n < 16 {
        seq![digit_char(n as int)]
    } else {
        hex_chars(n / 16).push(digit_char((n % 16) as int))
    }
}

/// Two lowercase hexadecimal digits of a byte.
pub open spec fn hex2_chars(n: u8) -> Seq<char> {
    seq![digit_char(n as int / 16), digit_char(n as int % 16)]
}

/// Decimal rendering of a signed value (`-` before negative values).
pub open spec fn signed_chars(v: int) -> Seq<char> {
    if v < 0 { seq!['-'] + dec_chars((-v) as nat) } else { dec_chars(v as nat) }
}

/// Digits are the ASCII characters `0` to `9`, then `a` to `f`.
pub proof fn lemma_digit_chars(d: int)
    requires
        0 <= d < 16,
    ensures
        digit_char(d) as int == (if d < 10 { 48 + d } else { 97 + (d - 10) }),
{
}

/// Value of a digit character (`0` to `9`, `a` to `f`).
pub open spec fn char_value(c: char) -> int {
    if 48 <= c as int <= 57 { c as int - 48 } else { c as int - 87 }
}

/// Value of a digit string in base `radix`, most significant digit first.
pub open spec fn digits_value(s: Seq<char>, radix: int) -> int
    decreases s.len(),
{
    if s.len() == 0 { 0 } else { digits_value(s.drop_last(), radix) * radix + char_value(s.last()) }
}

/// Reading the rendering back gives the number: decimal text holds only
/// `0` to `9` and its value is `n`; hexadecimal text holds only `0` to `9`
/// and `a` to `f` and its value is `n`.
pub proof fn lemma_renderings_read_back(n: nat)
    ensures
        digits_value(dec_chars(n), 10) == n,
        forall|k: int| 0 <= k < dec_chars(n).len() ==> 48 <= #[trigger] dec_chars(n)[k] as int <= 57,
        digits_value(hex_chars(n), 16) == n,
        forall|k: int| 0 <= k < hex_chars(n).len() ==> {
            let c = #[trigger] hex_chars(n)[k] as int;
            (48 <= c <= 57) || (97 <= c <= 102)
        },
    decreases n,
{
    if n >= 10 {
        lemma_renderings_read_back(n / 10);
        let t = dec_chars(n / 10);
        assert(dec_chars(n).drop_last() =~= t);
        lemma_digit_chars((n % 10) as int);
        assert(char_value(dec_chars(n).last()) == n % 10);
        assert(digits_value(dec_chars(n), 10) == digits_value(t, 10) * 10 + n % 10);
        assert((n / 10) * 10 + n % 10 == n) by (nonlinear_arith);
        assert(digits_value(t, 10) == n / 10);
        assert(digits_value(dec_chars(n), 10) == n);
        assert forall|k: int| 0 <= k < dec_chars(n).len() implies 48 <= #[trigger] dec_chars(n)[k] as int <= 57 by {
            if k < t.len() {
                assert(dec_chars(n)[k] == t[k]);
            }
        }
    } else {
        lemma_digit_chars(n as int);
        assert(dec_chars(n).drop_last() =~= Seq::<char>::empty());
        assert(char_value(dec_chars(n).last()) == n);
        assert(digits_value(dec_chars(n).drop_last(), 10) == 0);
        assert(digits_value(dec_chars(n), 10) == n);
    }
    if n >= 16 {
        lemma_renderings_read_back(n / 16);
        let t = hex_chars(n / 16);
        assert(hex_chars(n).drop_last() =~= t);
        lemma_digit_chars((n % 16) as int);
        assert(char_value(hex_chars(n).last()) == n % 16);
        assert(digits_value(hex_chars(n), 16) == digits_value(t, 16) * 16 + n % 16);
        assert((n / 16) * 16 + n % 16 == n) by (nonlinear_arith);
        assert(digits_value(t, 16) == n / 16);
        assert(digits_value(hex_chars(n), 16) == n);
        assert forall|k: int| 0 <= k < hex_chars(n).len() implies {
            let c = #[trigger] hex_chars(n)[k] as int;
            (48 <= c <= 57) || (97 <= c <= 102)
        } by {
            if k < t.len() {
                assert(hex_chars(n)[k] == t[k]);
            }
        }
    } else {
        lemma_digit_chars(n as int);
        assert(hex_chars(n).drop_last() =~= Seq::<char>::empty());
        assert(char_value(hex_chars(n).last()) == n);
        assert(digits_value(hex_chars(n).drop_last(), 16) == 0);
        assert(digits_value(hex_chars(n), 16) == n);
    }
}

/// The one-character text of digit `d`.
pub fn digit_str(d: u64) -> (s: &'static str)
    requires
        d < 16,
    ensures
        s@ == seq![digit_char(d as int)],
{
    if d == 0 {
        proof { reveal_strlit("0"); }
        "0"
    } else if d == 1 {
        proof { reveal_strlit("1"); }
        "1"
    } else if d == 2 {
        proof { reveal_strlit("2"); }
        "2"
    } else if d == 3 {
        proof { reveal_strlit("3"); }
        "3"
    } else if d == 4 {
        proof { reveal_strlit("4"); }
        "4"
    } else if d == 5 {
        proof { reveal_strlit("5"); }
        "5"
    } else if d == 6 {
        proof { reveal_strlit("6"); }
        "6"
    } else if d == 7 {
        proof { reveal_strlit("7"); }
        "7"
    } else if d == 8 {
        proof { reveal_strlit("8"); }
        "8"
    } else if d == 9 {
        proof { reveal_strlit("9"); }
        "9"
    } else if d == 10 {
        proof { reveal_strlit("a"); }
        "a"
    } else if d == 11 {
        proof { reveal_strlit("b"); }
        "b"
    } else if d == 12 {
        proof { reveal_strlit("c"); }
        "c"
    } else if d == 13 {
        proof { reveal_strlit("d"); }
        "d"
    } else if d == 14 {
        proof { reveal_strlit("e"); }
        "e"
    } else {
        proof { reveal_strlit("f"); }
        "f"
    }
}

/// Decimal text of `n`.
pub fn dec(n: u64) -> (s: String)
    ensures
        s@ == dec_chars(n as nat),
    decreases n,
{
    if n < 10 {
        digit_str(n).to_owned()
    } else {
        let mut s = dec(n / 10);
        s.append(digit_str(n % 10));
        s
    }
}

/// Lowercase hexadecimal text of `n`.
pub fn hex(n: u64) -> (s: String)
    ensures
        s@ == hex_chars(n as nat),
    decreases n,
{
    if n < 16 {
        digit_str(n).to_owned()
    } else {
        let mut s = hex(n / 16);
        s.append(digit_str(n % 16));
        s
    }
}

/// Two lowercase hexadecimal digits of a byte.
pub fn hex2(n: u8) -> (s: String)
    ensures
        s@ == hex2_chars(n),
{
    let mut s = digit_str((n / 16) as u64).to_owned();
    s.append(digit_str((n % 16) as u64));
    s
}

/// Decimal text of a signed value.
pub fn signed_dec(v: i64) -> (s: String)
    ensures
        s@ == signed_chars(v as int),
{
    if v < 0 {
        let mut s = "-".to_owned();
        proof { reveal_strlit("-"); }
        let mag: u64 = if v == i64::MIN { 0x8000_0000_0000_0000u64 } else { (-v) as u64 };
        let d = dec(mag);
        s.append(d.as_str());
        s
    } else {
        dec(v as u64)
    }
}

/// `a` followed by `b`.
pub fn cat(a: &str, b: &str) -> (s: String)
    ensures
        s@ == a@ + b@,
{
    let mut s = a.to_owned();
    s.append(b);
    s
}

/// Uppercase digit `d` (0 to 15).
pub open spec fn upper_digit_char(d: int) -> char {
    if d < 10 { digit_char(d) } else if d == 10 { 'A' } else if d == 11 { 'B' } else if d == 12 { 'C' }
    else if d == 13 { 'D' } else if d == 14 { 'E' } else { 'F' }
}

/// The `w` lowest uppercase hexadecimal digits of `n`, zero-padded.
pub open spec fn hex_upper_chars(n: nat, w: nat) -> Seq<char>
    decreases w,
{
    if w == 0 {
        Seq::empty()
    } else {
        hex_upper_chars(n / 16, (w - 1) as nat).push(upper_digit_char((n % 16) as int))
    }
}

/// The one-character text of uppercase digit `d`.
pub fn upper_digit_str(d: u64) -> (s: &'static str)
    requires
        d < 16,
    ensures
        s@ == seq![upper_digit_char(d as int)],
{
    if d < 10 {
        digit_str(d)
    } else if d == 10 {
        proof { reveal_strlit("A"); }
        "A"
    } else if d == 11 {
        proof { reveal_strlit("B"); }
        "B"
    } else if d == 12 {
        proof { reveal_strlit("C"); }
        "C"
    } else if d == 13 {
        proof { reveal_strlit("D"); }
        "D"
    } else if d == 14 {
        proof { reveal_strlit("E"); }
        "E"
    } else {
        proof { reveal_strlit("F"); }
        "F"
    }
}

/// `n` as `w` zero-padded uppercase hexadecimal digits (`{:0wX}` for
/// values below `16^w`).
pub fn hex_upper(n: u64, w: u64) -> (s: String)
    ensures
        s@ == hex_upper_chars(n as nat, w as nat),
    decreases w,
{
    if w == 0 {
        String::new()
    } else {
        let mut s = hex_upper(n / 16, w - 1);
        s.append(upper_digit_str(n % 16));
        s
    }
}

/// `Some(n)` or `None`, as `{:?}` renders an optional byte.
pub open spec fn opt_debug_chars(v: Option<u8>) -> Seq<char> {
    match v {
        Some(n) => "Some("@ + dec_chars(n as nat) + ")"@,
        None => "None"@,
    }
}

pub fn opt_debug(v: Option<u8>) -> (s: String)
    ensures
        s@ == opt_debug_chars(v),
{
    match v {
        Some(n) => {
            let mut s = "Some(".to_owned();
            s.append(dec(n as u64).as_str());
            s.append(")");
            s
        },
        None => "None".to_owned(),
    }
}

/// `String::push` of std: appends the character `c`.
#[verifier::external_body]
pub(crate) fn push_char(s: &mut String, c: char)
    ensures
        final(s)@ == old(s)@.push(c),
{
    s.push(c);
}

} // verus!
