//! Error texts that embed numbers.

use vstd::prelude::*;
use crate::text::{dec, dec_chars, hex2, hex2_chars, signed_chars, signed_dec};

verus! {

/// `{prefix}0x{id:02x}{suffix}`.
pub fn fmt_hex_id(prefix: &str, id: u8, suffix: &str) -> (s: String)
    ensures
        s@ == prefix@ + seq!['0', 'x'] + hex2_chars(id) + suffix@,
{
    let mut s = prefix.to_owned();
    s.append("0x");
    let h = hex2(id);
    s.append(h.as_str());
    s.append(suffix);
    proof {
        reveal_strlit("0x");
    }
    s
}

/// `unsupported TZX block ID 0x{id:02x} at offset {offset}{suffix}`.
pub fn fmt_unsupported_id(id: u8, offset: usize, suffix: &str) -> (s: String)
    ensures
        s@ == "unsupported TZX block ID "@ + seq!['0', 'x'] + hex2_chars(id) + " at offset "@ + dec_chars(
            offset as nat,
        ) + suffix@,
{
    let mut s = fmt_hex_id("unsupported TZX block ID ", id, " at offset ");
    let d = dec(offset as u64);
    s.append(d.as_str());
    s.append(suffix);
    s
}

/// `TZX {kind} target out of range (from {from} + {rel}, {count} blocks)`.
pub fn fmt_out_of_range(kind: &str, from: usize, rel: i16, count: usize) -> (s: String)
    ensures
        s@ == "TZX "@ + kind@ + " target out of range (from "@ + dec_chars(from as nat) + " + "@
            + signed_chars(rel as int) + ", "@ + dec_chars(count as nat) + " blocks)"@,
{
    let mut s = "TZX ".to_owned();
    s.append(kind);
    s.append(" target out of range (from ");
    let a = dec(from as u64);
    s.append(a.as_str());
    s.append(" + ");
    let b = signed_dec(rel as i64);
    s.append(b.as_str());
    s.append(", ");
    let c = dec(count as u64);
    s.append(c.as_str());
    s.append(" blocks)");
    s
}

/// `{prefix}{a}{middle}{b}{suffix}`.
pub fn fmt_two_numbers(prefix: &str, a: u64, middle: &str, b: u64, suffix: &str) -> (s: String)
    ensures
        s@ == prefix@ + dec_chars(a as nat) + middle@ + dec_chars(b as nat) + suffix@,
{
    let mut s = prefix.to_owned();
    let da = dec(a);
    s.append(da.as_str());
    s.append(middle);
    let db = dec(b);
    s.append(db.as_str());
    s.append(suffix);
    s
}

/// `{prefix}{text}`.
pub fn fmt_prefixed(prefix: &str, text: &str) -> (s: String)
    ensures
        s@ == prefix@ + text@,
{
    let mut s = prefix.to_owned();
    s.append(text);
    s
}

} // verus!
