//! TZX framing: byte-level field readers and the block-offset index.

use vstd::prelude::*;
use crate::tap::le16;
use crate::msg::{fmt_hex_id, fmt_unsupported_id};
use crate::text::{dec_chars, hex2_chars};

verus! {

/// Total length of the fixed TZX header (`ZXTape!`, `0x1A`, major, minor).
pub const TZX_HEADER_LEN: usize = 10;

pub open spec fn le24(data: Seq<u8>, i: int) -> int {
    data[i] as int + 256 * (data[i + 1] as int) + 65536 * (data[i + 2] as int)
}

pub open spec fn le32(data: Seq<u8>, i: int) -> int {
    le24(data, i) + 16777216 * (data[i + 3] as int)
}

/// Signed little-endian 16-bit word.
pub open spec fn s16(data: Seq<u8>, i: int) -> int {
    if le16(data, i) >= 32768 { le16(data, i) - 65536 } else { le16(data, i) }
}

/// Byte at `i`, or `0` past the end.
pub open spec fn byte_or0(data: Seq<u8>, i: int) -> int {
    if 0 <= i < data.len() { data[i] as int } else { 0 }
}

/// `Some(e)` when offset `e` is still inside the data.
pub open spec fn within(data: Seq<u8>, e: int) -> Option<int> {
    if e > data.len() { None } else { Some(e) }
}

/// Offset just past the body of a block with ID `id` whose body starts at `i`.
/// `None` for an unknown ID or a body that runs past the end of the data.
#[verifier::opaque]
pub open spec fn block_end(data: Seq<u8>, id: u8, i: int) -> Option<int> {
    let n = data.len() as int;
    if id == 0x10 {
        if i + 4 > n { None } else { within(data, i + 4 + le16(data, i + 2)) }
    } else if id == 0x11 {
        if i + 18 > n { None } else { within(data, i + 18 + le24(data, i + 15)) }
    } else if id == 0x12 {
        within(data, i + 4)
    } else if id == 0x13 {
        within(data, i + 1 + 2 * byte_or0(data, i))
    } else if id == 0x14 {
        if i + 10 > n { None } else { within(data, i + 10 + le24(data, i + 7)) }
    } else if id == 0x15 {
        if i + 8 > n { None } else { within(data, i + 8 + le24(data, i + 5)) }
    } else if id == 0x18 || id == 0x19 {
        if i + 4 > n { None } else { within(data, i + 4 + le32(data, i)) }
    } else if id == 0x20 || id == 0x23 || id == 0x24 {
        within(data, i + 2)
    } else if id == 0x21 || id == 0x30 {
        within(data, i + 1 + byte_or0(data, i))
    } else if id == 0x22 || id == 0x25 || id == 0x27 {
        within(data, i)
    } else if id == 0x26 {
        if i + 2 > n { None } else { within(data, i + 2 + 2 * le16(data, i)) }
    } else if id == 0x28 || id == 0x32 {
        if i + 2 > n { None } else { within(data, i + 2 + le16(data, i)) }
    } else if id == 0x2a {
        within(data, i + 4)
    } else if id == 0x2b {
        within(data, i + 5)
    } else if id == 0x33 {
        within(data, i + 1 + 3 * byte_or0(data, i))
    } else if id == 0x35 {
        if i + 0x14 > n { None } else { within(data, i + 0x14 + le32(data, i + 0x10)) }
    } else if id == 0x5a {
        within(data, i + 9)
    } else {
        None
    }
}

/// Offsets of the ID bytes of the blocks from offset `i` on.
pub open spec fn block_offsets_from(data: Seq<u8>, i: int) -> Option<Seq<int>>
    decreases data.len() - i,
{
    if i < 0 || i >= data.len() {
        Some(Seq::empty())
    } else {
        match block_end(data, data[i], i + 1) {
            None => None,
            Some(e) => if e <= i || e > data.len() {
                None
            } else {
                match block_offsets_from(data, e) {
                    None => None,
                    Some(rest) => Some(seq![i] + rest),
                }
            },
        }
    }
}

/// Offsets of the ID bytes of all top-level blocks after the header.
pub open spec fn block_offsets(data: Seq<u8>) -> Option<Seq<int>> {
    block_offsets_from(data, TZX_HEADER_LEN as int)
}

pub fn rd16(data: &[u8], i: usize) -> (r: usize)
    requires
        i + 2 <= data@.len(),
    ensures
        r == le16(data@, i as int),
        r < 65536,
{
    data[i] as usize + 256 * (data[i + 1] as usize)
}

pub fn rd24(data: &[u8], i: usize) -> (r: usize)
    requires
        i + 3 <= data@.len(),
    ensures
        r == le24(data@, i as int),
        r < 16777216,
{
    data[i] as usize + 256 * (data[i + 1] as usize) + 65536 * (data[i + 2] as usize)
}

pub fn rd32(data: &[u8], i: usize) -> (r: u64)
    requires
        i + 4 <= data@.len(),
    ensures
        r == le32(data@, i as int),
        r < 4294967296,
{
    data[i] as u64 + 256 * (data[i + 1] as u64) + 65536 * (data[i + 2] as u64) + 16777216 * (
    data[i + 3] as u64)
}

pub fn rds16(data: &[u8], i: usize) -> (r: i16)
    requires
        i + 2 <= data@.len(),
    ensures
        r == s16(data@, i as int),
{
    let u = rd16(data, i);
    if u >= 32768 {
        (u as i32 - 65536) as i16
    } else {
        u as i16
    }
}

/// `i + k` when it does not pass `n` (no overflow).
pub fn add_within(i: usize, k: u64, n: usize) -> (r: Option<usize>)
    requires
        i <= n,
    ensures
        r matches Some(e) ==> e == i + k && e <= n,
        r is None <==> i + k > n,
{
    if k > (n - i) as u64 {
        None
    } else {
        Some(i + k as usize)
    }
}

/// Exec [`block_end`].
pub fn body_end(data: &[u8], id: u8, i: usize) -> (r: Option<usize>)
    requires
        i <= data@.len(),
    ensures
        r matches Some(e) ==> block_end(data@, id, i as int) == Some(e as int) && i <= e <= data@.len(),
        r is None <==> block_end(data@, id, i as int) is None,
{
    reveal(block_end);
    let n = data.len();
    let len: u64;
    let head: u64;
    if id == 0x10 {
        if n - i < 4 { return None; }
        head = 4; len = rd16(data, i + 2) as u64;
    } else if id == 0x11 {
        if n - i < 18 { return None; }
        head = 18; len = rd24(data, i + 15) as u64;
    } else if id == 0x12 {
        head = 4; len = 0;
    } else if id == 0x13 {
        head = 1; len = 2 * (if i < n { data[i] as u64 } else { 0 });
    } else if id == 0x14 {
        if n - i < 10 { return None; }
        head = 10; len = rd24(data, i + 7) as u64;
    } else if id == 0x15 {
        if n - i < 8 { return None; }
        head = 8; len = rd24(data, i + 5) as u64;
    } else if id == 0x18 || id == 0x19 {
        if n - i < 4 { return None; }
        head = 4; len = rd32(data, i);
    } else if id == 0x20 || id == 0x23 || id == 0x24 {
        head = 2; len = 0;
    } else if id == 0x21 || id == 0x30 {
        head = 1; len = if i < n { data[i] as u64 } else { 0 };
    } else if id == 0x22 || id == 0x25 || id == 0x27 {
        head = 0; len = 0;
    } else if id == 0x26 {
        if n - i < 2 { return None; }
        head = 2; len = 2 * (rd16(data, i) as u64);
    } else if id == 0x28 || id == 0x32 {
        if n - i < 2 { return None; }
        head = 2; len = rd16(data, i) as u64;
    } else if id == 0x2a {
        head = 4; len = 0;
    } else if id == 0x2b {
        head = 5; len = 0;
    } else if id == 0x33 {
        head = 1; len = 3 * (if i < n { data[i] as u64 } else { 0 });
    } else if id == 0x35 {
        if n - i < 0x14 { return None; }
        head = 0x14; len = rd32(data, i + 0x10);
    } else if id == 0x5a {
        head = 9; len = 0;
    } else {
        return None;
    }
    add_within(i, head + len, n)
}

/// Offsets as integers.
pub open spec fn offs_int(v: Seq<usize>) -> Seq<int> {
    v.map_values(|o: usize| o as int)
}

/// Whether the walk knows block ID `id`.
pub open spec fn known_id(id: u8) -> bool {
    (0x10 <= id <= 0x15) || id == 0x18 || id == 0x19 || (0x20 <= id <= 0x28) || id == 0x2a || id == 0x2b
        || id == 0x30 || id == 0x32 || id == 0x33 || id == 0x35 || id == 0x5a
}

pub fn is_known_id(id: u8) -> (r: bool)
    ensures
        r == known_id(id),
{
    (0x10 <= id && id <= 0x15) || id == 0x18 || id == 0x19 || (0x20 <= id && id <= 0x28) || id == 0x2a || id == 0x2b
        || id == 0x30 || id == 0x32 || id == 0x33 || id == 0x35 || id == 0x5a
}

/// An unknown ID has no block end.
pub proof fn lemma_unknown_has_no_end(data: Seq<u8>, id: u8, i: int)
    requires
        !known_id(id),
    ensures
        block_end(data, id, i) is None,
{
    reveal(block_end);
}

/// Every offset of the index lies inside the data, after `i`.
pub proof fn lemma_offsets_in_range(data: Seq<u8>, i: int)
    ensures
        match block_offsets_from(data, i) {
            Some(offs) => forall|k: int| 0 <= k < offs.len() ==> i <= #[trigger] offs[k] < data.len(),
            None => true,
        },
    decreases data.len() - i,
{
    if 0 <= i < data.len() {
        match block_end(data, data[i], i + 1) {
            None => {},
            Some(e) => {
                if i < e <= data.len() {
                    lemma_offsets_in_range(data, e);
                    match block_offsets_from(data, e) {
                        None => {},
                        Some(rest) => {
                            let offs = seq![i] + rest;
                            assert forall|k: int| 0 <= k < offs.len() implies i <= #[trigger] offs[k] < data.len() by {
                                if k > 0 {
                                    assert(offs[k] == rest[k - 1]);
                                }
                            }
                        },
                    }
                }
            },
        }
    }
}

/// The fixed part of a block with ID `id` whose body starts at `i` (the
/// fields that hold its length) runs past the end of the data.
pub open spec fn head_short(data: Seq<u8>, id: u8, i: int) -> bool {
    let n = data.len() as int;
    if id == 0x10 || id == 0x18 || id == 0x19 {
        i + 4 > n
    } else if id == 0x11 {
        i + 18 > n
    } else if id == 0x14 {
        i + 10 > n
    } else if id == 0x15 {
        i + 8 > n
    } else if id == 0x26 || id == 0x28 || id == 0x32 {
        i + 2 > n
    } else if id == 0x35 {
        i + 0x14 > n
    } else {
        false
    }
}

fn is_head_short(n: usize, id: u8, i: usize) -> (r: bool)
    requires
        i <= n,
    ensures
        forall|data: Seq<u8>| data.len() == n ==> r == head_short(data, id, i as int),
{
    let left = n - i;
    if id == 0x10 || id == 0x18 || id == 0x19 {
        left < 4
    } else if id == 0x11 {
        left < 18
    } else if id == 0x14 {
        left < 10
    } else if id == 0x15 {
        left < 8
    } else if id == 0x26 || id == 0x28 || id == 0x32 {
        left < 2
    } else if id == 0x35 {
        left < 0x14
    } else {
        false
    }
}

/// Why the block with ID `id` at offset `at` cannot be walked: an unknown
/// ID, a fixed part cut short (`truncated 0x..`), or a body that runs past
/// the end of the data (`truncated TZX block ID 0x..`).
pub open spec fn block_error(data: Seq<u8>, id: u8, at: int) -> Seq<char> {
    if !known_id(id) {
        "unsupported TZX block ID "@ + seq!['0', 'x'] + hex2_chars(id) + " at offset "@ + dec_chars(at as nat)
    } else if head_short(data, id, at + 1) {
        "truncated "@ + seq!['0', 'x'] + hex2_chars(id)
    } else {
        "truncated TZX block ID "@ + seq!['0', 'x'] + hex2_chars(id)
    }
}

/// The message of the first block from offset `i` on that cannot be walked.
pub open spec fn index_error_from(data: Seq<u8>, i: int) -> Seq<char>
    decreases data.len() - i,
{
    if i < 0 || i >= data.len() {
        Seq::empty()
    } else {
        match block_end(data, data[i], i + 1) {
            None => block_error(data, data[i], i),
            Some(e) => if e <= i || e > data.len() {
                Seq::empty()
            } else {
                index_error_from(data, e)
            },
        }
    }
}

/// Byte offsets of the ID bytes of all top-level blocks (for relative
/// Jump / Call / Select addressing).
pub fn index_blocks(data: &[u8]) -> (r: Result<Vec<usize>, String>)
    ensures
        match block_offsets(data@) {
            Some(offs) => r matches Ok(v) && offs_int(v@) == offs,
            None => r matches Err(m) && m@ == index_error_from(data@, TZX_HEADER_LEN as int),
        },
{
    let mut offsets: Vec<usize> = Vec::new();
    let mut i: usize = TZX_HEADER_LEN;
    let n = data.len();
    let ghost total = block_offsets(data@);
    if i >= n {
        assert(offs_int(offsets@) =~= Seq::<int>::empty());
        return Ok(offsets);
    }
    while i < n
        invariant
            n == data@.len(),
            TZX_HEADER_LEN <= i,
            total == block_offsets(data@),
            total == (match block_offsets_from(data@, i as int) {
                None => None,
                Some(rest) => Some(offs_int(offsets@) + rest),
            }),
            index_error_from(data@, i as int) == index_error_from(data@, TZX_HEADER_LEN as int),
        decreases n - i,
    {
        let id = data[i];
        match body_end(data, id, i + 1) {
            None => {
                assert(block_end(data@, data@[i as int], i + 1) is None);
                assert(block_offsets_from(data@, i as int) is None);
                assert(index_error_from(data@, i as int) == block_error(data@, id, i as int));
                proof {
                    reveal_strlit("");
                }
                if !is_known_id(id) {
                    let m = fmt_unsupported_id(id, i, "");
                    assert(m@ =~= block_error(data@, id, i as int));
                    return Err(m);
                }
                let short = is_head_short(n, id, i + 1);
                assert(short == head_short(data@, id, i + 1));
                if short {
                    let m = fmt_hex_id("truncated ", id, "");
                    assert(m@ =~= block_error(data@, id, i as int));
                    return Err(m);
                }
                return Err(fmt_hex_id("truncated TZX block ID ", id, ""));
            },
            Some(e) => {
                let ghost old_offs = offsets@;
                offsets.push(i);
                proof {
                    assert(offs_int(offsets@) =~= offs_int(old_offs) + seq![i as int]);
                    match block_offsets_from(data@, e as int) {
                        None => {},
                        Some(rest) => {
                            assert(offs_int(old_offs) + (seq![i as int] + rest) =~= offs_int(offsets@) + rest);
                        },
                    }
                }
                i = e;
            },
        }
    }
    proof {
        assert(offs_int(offsets@) + Seq::<int>::empty() =~= offs_int(offsets@));
    }
    Ok(offsets)
}

} // verus!
