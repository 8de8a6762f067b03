//! Host joystick to Kempston / Sinclair / Cursor mapping.
//!
//! The Kempston port latch and the keyboard matrix that the mapping writes
//! are held as plain values: five direction / fire flags, and eight
//! active-low rows of five keys.

use vstd::prelude::*;

verus! {

/// Logical digital stick (active when true).
#[derive(Clone, Copy, Debug, Default, PartialEq, Eq, Structural)]
pub struct JoystickState {
    pub up: bool,
    pub down: bool,
    pub left: bool,
    pub right: bool,
    pub fire: bool,
}

/// `v` when `b`, else 0.
pub open spec fn bit_if(b: bool, v: u8) -> u8 {
    if b { v } else { 0 }
}

/// Bit 0 = right, 1 = left, 2 = down, 3 = up, 4 = fire.
pub open spec fn mask_of(s: JoystickState) -> u8 {
    bit_if(s.right, 0x01) | bit_if(s.left, 0x02) | bit_if(s.down, 0x04) | bit_if(s.up, 0x08) | bit_if(s.fire, 0x10)
}

pub open spec fn state_of(mask: u8) -> JoystickState {
    JoystickState {
        right: mask & 0x01 != 0,
        left: mask & 0x02 != 0,
        down: mask & 0x04 != 0,
        up: mask & 0x08 != 0,
        fire: mask & 0x10 != 0,
    }
}

impl JoystickState {
    pub fn empty() -> (s: Self)
        ensures
            s == (JoystickState { up: false, down: false, left: false, right: false, fire: false }),
    {
        JoystickState { up: false, down: false, left: false, right: false, fire: false }
    }

    /// Bit 0 = right, 1 = left, 2 = down, 3 = up, 4 = fire (the Kempston layout).
    pub fn from_mask(mask: u8) -> (s: Self)
        ensures
            s == state_of(mask),
    {
        JoystickState {
            right: mask & 0x01 != 0,
            left: mask & 0x02 != 0,
            down: mask & 0x04 != 0,
            up: mask & 0x08 != 0,
            fire: mask & 0x10 != 0,
        }
    }

    pub fn to_mask(self) -> (m: u8)
        ensures
            m == mask_of(self),
    {
        bit_if_exec(self.right, 0x01) | bit_if_exec(self.left, 0x02) | bit_if_exec(self.down, 0x04) | bit_if_exec(
            self.up,
            0x08,
        ) | bit_if_exec(self.fire, 0x10)
    }
}

/// `v` when `b`, else 0.
pub fn bit_if_exec(b: bool, v: u8) -> (r: u8)
    ensures
        r == bit_if(b, v),
{
    if b { v } else { 0 }
}

/// The released stick.
pub open spec fn released() -> JoystickState {
    JoystickState { up: false, down: false, left: false, right: false, fire: false }
}

/// Decoding a mask gives back the stick it encodes.
pub proof fn lemma_mask_roundtrip(s: JoystickState)
    ensures
        state_of(mask_of(s)) == s,
{
    let (r, l, d, u, f) = (s.right, s.left, s.down, s.up, s.fire);
    let m = mask_of(s);
    assert(m & 0x01 != 0 <==> r) by (bit_vector)
        requires
            m == bit_if(r, 0x01) | bit_if(l, 0x02) | bit_if(d, 0x04) | bit_if(u, 0x08) | bit_if(f, 0x10),
    ;
    assert(m & 0x02 != 0 <==> l) by (bit_vector)
        requires
            m == bit_if(r, 0x01) | bit_if(l, 0x02) | bit_if(d, 0x04) | bit_if(u, 0x08) | bit_if(f, 0x10),
    ;
    assert(m & 0x04 != 0 <==> d) by (bit_vector)
        requires
            m == bit_if(r, 0x01) | bit_if(l, 0x02) | bit_if(d, 0x04) | bit_if(u, 0x08) | bit_if(f, 0x10),
    ;
    assert(m & 0x08 != 0 <==> u) by (bit_vector)
        requires
            m == bit_if(r, 0x01) | bit_if(l, 0x02) | bit_if(d, 0x04) | bit_if(u, 0x08) | bit_if(f, 0x10),
    ;
    assert(m & 0x10 != 0 <==> f) by (bit_vector)
        requires
            m == bit_if(r, 0x01) | bit_if(l, 0x02) | bit_if(d, 0x04) | bit_if(u, 0x08) | bit_if(f, 0x10),
    ;
}

/// The Kempston port layout: bit 0 right, bit 1 left, bit 2 down, bit 3 up,
/// bit 4 fire; a set bit is a pressed direction, in both directions of the
/// encoding.
pub proof fn lemma_kempston_layout(s: JoystickState, mask: u8)
    ensures
        mask_of(s) & 0x01 != 0 <==> s.right,
        mask_of(s) & 0x02 != 0 <==> s.left,
        mask_of(s) & 0x04 != 0 <==> s.down,
        mask_of(s) & 0x08 != 0 <==> s.up,
        mask_of(s) & 0x10 != 0 <==> s.fire,
        state_of(mask).right <==> mask & 0x01 != 0,
        state_of(mask).left <==> mask & 0x02 != 0,
        state_of(mask).down <==> mask & 0x04 != 0,
        state_of(mask).up <==> mask & 0x08 != 0,
        state_of(mask).fire <==> mask & 0x10 != 0,
{
    lemma_mask_roundtrip(s);
}

/// Encoding a decoded mask keeps its five stick bits and drops the rest.
pub proof fn lemma_state_roundtrip(mask: u8)
    ensures
        mask_of(state_of(mask)) == mask & 0x1f,
{
    let s = state_of(mask);
    assert(bit_if(mask & 0x01 != 0, 0x01) | bit_if(mask & 0x02 != 0, 0x02) | bit_if(mask & 0x04 != 0, 0x04) | bit_if(
        mask & 0x08 != 0,
        0x08,
    ) | bit_if(mask & 0x10 != 0, 0x10) == mask & 0x1f) by (bit_vector);
}

/// How a host stick is presented to software.
#[derive(Clone, Copy, Debug, Default, PartialEq, Eq, Structural)]
pub enum JoystickMode {
    #[default]
    Kempston,
    /// Interface 2 left stick: keys 1 to 5.
    SinclairLeft,
    /// Interface 2 right stick: keys 6 to 0.
    SinclairRight,
    /// Cursor keys (Caps + 5/6/7/8) and 0 for fire.
    Cursor,
}

impl JoystickMode {
    pub fn from_u8(v: u8) -> (r: Option<Self>)
        ensures
            r == (if v == 0 {
                Some(JoystickMode::Kempston)
            } else if v == 1 {
                Some(JoystickMode::SinclairLeft)
            } else if v == 2 {
                Some(JoystickMode::SinclairRight)
            } else if v == 3 {
                Some(JoystickMode::Cursor)
            } else {
                None
            }),
    {
        match v {
            0 => Some(JoystickMode::Kempston),
            1 => Some(JoystickMode::SinclairLeft),
            2 => Some(JoystickMode::SinclairRight),
            3 => Some(JoystickMode::Cursor),
            _ => None,
        }
    }
}

/// Kempston joystick port latch.
#[derive(Clone, Copy, Debug, Default, PartialEq, Eq, Structural)]
pub struct KempstonLatch {
    pub up: bool,
    pub down: bool,
    pub left: bool,
    pub right: bool,
    pub fire: bool,
}

impl KempstonLatch {
    pub open spec fn stick(self) -> JoystickState {
        JoystickState { up: self.up, down: self.down, left: self.left, right: self.right, fire: self.fire }
    }

    /// Released stick.
    pub fn new() -> (k: Self)
        ensures
            k.stick() == released(),
    {
        KempstonLatch { up: false, down: false, left: false, right: false, fire: false }
    }

    /// Release every direction and fire.
    pub fn reset(&mut self)
        ensures
            final(self).stick() == released(),
    {
        *self = KempstonLatch { up: false, down: false, left: false, right: false, fire: false };
    }

    /// Port value: bit 0 = right, 1 = left, 2 = down, 3 = up, 4 = fire.
    pub fn read(&self) -> (m: u8)
        ensures
            m == mask_of(self.stick()),
    {
        JoystickState { up: self.up, down: self.down, left: self.left, right: self.right, fire: self.fire }.to_mask()
    }
}

/// Row byte after pressing (clearing) or releasing (setting) key bit `bit`.
pub open spec fn set_bit(r: u8, bit: u8, pressed: bool) -> u8 {
    if pressed { r & !(1u8 << bit) } else { r | (1u8 << bit) }
}

/// Keyboard matrix: eight half-rows, five keys each, active low.
#[derive(Clone, Copy, Debug, PartialEq, Eq)]
pub struct KeyMatrix {
    pub rows: [u8; 8],
}

impl KeyMatrix {
    /// No key pressed.
    pub fn new() -> (kb: Self)
        ensures
            kb.rows@ == Seq::new(8, |i: int| 0x1fu8),
    {
        let kb = KeyMatrix { rows: [0x1f, 0x1f, 0x1f, 0x1f, 0x1f, 0x1f, 0x1f, 0x1f] };
        assert(kb.rows@ =~= Seq::new(8, |i: int| 0x1fu8));
        kb
    }

    /// Press or release key `bit` of half-row `row`.
    pub fn set_key(&mut self, row: usize, bit: u8, pressed: bool)
        requires
            row < 8,
            bit < 8,
        ensures
            final(self).rows@ == old(self).rows@.update(row as int, set_bit(old(self).rows@[row as int], bit, pressed)),
    {
        let r = self.rows[row];
        let v = if pressed { r & !(1u8 << bit) } else { r | (1u8 << bit) };
        self.rows.set(row, v);
    }
}

/// Rows 0, 3 and 4 after clearing every key that a joystick mode may press:
/// keys 1 to 5 (row 3), keys 0 to 6 (row 4) and Caps Shift (row 0 bit 0).
pub open spec fn cleared(rows: Seq<u8>) -> Seq<u8> {
    rows.update(3, rows[3] | 0x1f).update(4, rows[4] | 0x1f).update(0, rows[0] | 0x01)
}

/// Clear every matrix key that any joystick mode may press.
pub fn clear_joystick_matrix(kb: &mut KeyMatrix)
    ensures
        final(kb).rows@ == cleared(old(kb).rows@),
{
    let ghost r0 = kb.rows@;
    proof {
        let x = r0[3];
        assert(x | 0u8 == x) by (bit_vector);
    }
    let mut bit: u8 = 0;
    while bit <= 4
        invariant
            bit <= 5,
            r0.len() == 8,
            kb.rows@.len() == 8,
            kb.rows@ == r0.update(3, kb.rows@[3]),
            kb.rows@[3] == r0[3] | low_bits(bit),
        decreases 5 - bit,
    {
        let ghost before = kb.rows@;
        kb.set_key(3, bit, false);
        proof {
            let x = r0[3];
            let b = bit;
            assert(set_bit(x | low_bits(b), b, false) == x | low_bits((b + 1) as u8)) by (bit_vector)
                requires
                    b <= 4,
            ;
            assert(kb.rows@ =~= r0.update(3, kb.rows@[3]));
        }
        bit += 1;
    }
    let ghost r1 = kb.rows@;
    proof {
        let x = r1[4];
        assert(x | 0u8 == x) by (bit_vector);
    }
    let mut bit: u8 = 0;
    while bit <= 4
        invariant
            bit <= 5,
            r1.len() == 8,
            kb.rows@.len() == 8,
            kb.rows@ == r1.update(4, kb.rows@[4]),
            kb.rows@[4] == r1[4] | low_bits(bit),
        decreases 5 - bit,
    {
        kb.set_key(4, bit, false);
        proof {
            let x = r1[4];
            let b = bit;
            assert(set_bit(x | low_bits(b), b, false) == x | low_bits((b + 1) as u8)) by (bit_vector)
                requires
                    b <= 4,
            ;
            assert(kb.rows@ =~= r1.update(4, kb.rows@[4]));
        }
        bit += 1;
    }
    kb.set_key(0, 0, false);
    proof {
        let z = r0[0];
        assert(set_bit(z, 0, false) == z | 0x01) by (bit_vector);
        assert(kb.rows@ =~= cleared(r0));
    }
}

/// The `n` lowest bits set (`n` at most 5).
pub open spec fn low_bits(n: u8) -> u8 {
    if n == 0 { 0 } else if n == 1 { 0x01 } else if n == 2 { 0x03 } else if n == 3 { 0x07 } else if n == 4 { 0x0f } else { 0x1f }
}

/// Rows after applying `s` under `mode` (the Kempston mode leaves them alone).
pub open spec fn joystick_rows(mode: JoystickMode, s: JoystickState, rows: Seq<u8>) -> Seq<u8> {
    let c = cleared(rows);
    match mode {
        JoystickMode::Kempston => rows,
        JoystickMode::SinclairLeft => c.update(
            3,
            c[3] & !(bit_if(s.left, 0x01) | bit_if(s.right, 0x02) | bit_if(s.down, 0x04) | bit_if(s.up, 0x08) | bit_if(s.fire, 0x10)),
        ),
        JoystickMode::SinclairRight => c.update(
            4,
            c[4] & !(bit_if(s.fire, 0x01) | bit_if(s.up, 0x02) | bit_if(s.down, 0x04) | bit_if(s.right, 0x08) | bit_if(s.left, 0x10)),
        ),
        JoystickMode::Cursor => c.update(0, c[0] & !bit_if(s.left || s.right || s.up || s.down, 0x01)).update(
            3,
            c[3] & !bit_if(s.left, 0x10),
        ).update(4, c[4] & !(bit_if(s.fire, 0x01) | bit_if(s.right, 0x04) | bit_if(s.up, 0x08) | bit_if(s.down, 0x10))),
    }
}

/// Pressing keys within `m` of a row whose `m` keys are released, then
/// releasing the `m` keys again, gives the released row back.
proof fn lemma_reclear(x: u8, m: u8, p: u8)
    requires
        p & m == p,
    ensures
        ((x | m) & !p) | m == x | m,
{
    assert(((x | m) & !p) | m == x | m) by (bit_vector)
        requires
            p & m == p,
    ;
}

/// A keyboard-mode joystick state replaces whatever any mode pressed before:
/// applying `s1` under `m1` and then `s2` under a keyboard mode `m2` leaves
/// the matrix as applying `s2` under `m2` alone.
pub proof fn lemma_joystick_replaces(m1: JoystickMode, s1: JoystickState, m2: JoystickMode, s2: JoystickState, rows: Seq<u8>)
    requires
        !(m2 is Kempston),
        rows.len() == 8,
    ensures
        joystick_rows(m2, s2, joystick_rows(m1, s1, rows)) == joystick_rows(m2, s2, rows),
{
    let r1 = joystick_rows(m1, s1, rows);
    let (l, r, d, u, f) = (s1.left, s1.right, s1.down, s1.up, s1.fire);
    let (x0, x3, x4) = (rows[0], rows[3], rows[4]);
    assert((x0 | 0x01) | 0x01 == x0 | 0x01 && (x3 | 0x1f) | 0x1f == x3 | 0x1f && (x4 | 0x1f) | 0x1f == x4 | 0x1f)
        by (bit_vector);
    let p3 = bit_if(l, 0x01) | bit_if(r, 0x02) | bit_if(d, 0x04) | bit_if(u, 0x08) | bit_if(f, 0x10);
    let p4 = bit_if(f, 0x01) | bit_if(u, 0x02) | bit_if(d, 0x04) | bit_if(r, 0x08) | bit_if(l, 0x10);
    let c0 = bit_if(l || r || u || d, 0x01);
    let c3 = bit_if(l, 0x10);
    let c4 = bit_if(f, 0x01) | bit_if(r, 0x04) | bit_if(u, 0x08) | bit_if(d, 0x10);
    assert(p3 & 0x1f == p3 && p4 & 0x1f == p4 && c0 & 0x01 == c0 && c3 & 0x1f == c3 && c4 & 0x1f == c4) by (bit_vector)
        requires
            p3 == bit_if(l, 0x01) | bit_if(r, 0x02) | bit_if(d, 0x04) | bit_if(u, 0x08) | bit_if(f, 0x10),
            p4 == bit_if(f, 0x01) | bit_if(u, 0x02) | bit_if(d, 0x04) | bit_if(r, 0x08) | bit_if(l, 0x10),
            c0 == bit_if(l || r || u || d, 0x01),
            c3 == bit_if(l, 0x10),
            c4 == bit_if(f, 0x01) | bit_if(r, 0x04) | bit_if(u, 0x08) | bit_if(d, 0x10),
    ;
    lemma_reclear(rows[3], 0x1f, p3);
    lemma_reclear(rows[4], 0x1f, p4);
    lemma_reclear(rows[0], 0x01, c0);
    lemma_reclear(rows[3], 0x1f, c3);
    lemma_reclear(rows[4], 0x1f, c4);
    assert(cleared(r1) =~= cleared(rows));
}

/// The key of half-row `row` at bit `mask` is held down (a held key reads 0).
pub open spec fn key_held(rows: Seq<u8>, row: int, mask: u8) -> bool {
    rows[row] & mask == 0
}

proof fn lemma_five_keys(x: u8, a: bool, b: bool, c: bool, d: bool, e: bool) by (bit_vector)
    ensures
        ((x | 0x1f) & !(bit_if(a, 0x01) | bit_if(b, 0x02) | bit_if(c, 0x04) | bit_if(d, 0x08) | bit_if(e, 0x10)))
            & 0x01 == 0 <==> a,
        ((x | 0x1f) & !(bit_if(a, 0x01) | bit_if(b, 0x02) | bit_if(c, 0x04) | bit_if(d, 0x08) | bit_if(e, 0x10)))
            & 0x02 == 0 <==> b,
        ((x | 0x1f) & !(bit_if(a, 0x01) | bit_if(b, 0x02) | bit_if(c, 0x04) | bit_if(d, 0x08) | bit_if(e, 0x10)))
            & 0x04 == 0 <==> c,
        ((x | 0x1f) & !(bit_if(a, 0x01) | bit_if(b, 0x02) | bit_if(c, 0x04) | bit_if(d, 0x08) | bit_if(e, 0x10)))
            & 0x08 == 0 <==> d,
        ((x | 0x1f) & !(bit_if(a, 0x01) | bit_if(b, 0x02) | bit_if(c, 0x04) | bit_if(d, 0x08) | bit_if(e, 0x10)))
            & 0x10 == 0 <==> e,
{
}

proof fn lemma_cursor_keys(x0: u8, x3: u8, x4: u8, l: bool, r: bool, u: bool, d: bool, f: bool) by (bit_vector)
    ensures
        ((x0 | 0x01) & !bit_if(l || r || u || d, 0x01)) & 0x01 == 0 <==> (l || r || u || d),
        ((x3 | 0x1f) & !bit_if(l, 0x10)) & 0x10 == 0 <==> l,
        ((x4 | 0x1f) & !(bit_if(f, 0x01) | bit_if(r, 0x04) | bit_if(u, 0x08) | bit_if(d, 0x10))) & 0x10 == 0 <==> d,
        ((x4 | 0x1f) & !(bit_if(f, 0x01) | bit_if(r, 0x04) | bit_if(u, 0x08) | bit_if(d, 0x10))) & 0x08 == 0 <==> u,
        ((x4 | 0x1f) & !(bit_if(f, 0x01) | bit_if(r, 0x04) | bit_if(u, 0x08) | bit_if(d, 0x10))) & 0x04 == 0 <==> r,
        ((x4 | 0x1f) & !(bit_if(f, 0x01) | bit_if(r, 0x04) | bit_if(u, 0x08) | bit_if(d, 0x10))) & 0x01 == 0 <==> f,
{
}

/// The keys each keyboard joystick holds, whatever the matrix held before:
/// - Sinclair left (Interface 2, keys 1 to 5 on half-row 3): left 1, right 2,
///   down 3, up 4, fire 5;
/// - Sinclair right (keys 6 to 0 on half-row 4, bit 0 being 0): left 6,
///   right 7, down 8, up 9, fire 0;
/// - Cursor: left 5 (half-row 3), down 6, up 7, right 8, fire 0 (half-row 4),
///   and Caps Shift (half-row 0) with any direction.
pub proof fn lemma_joystick_keys(s: JoystickState, rows: Seq<u8>)
    requires
        rows.len() == 8,
    ensures
        ({
            let sl = joystick_rows(JoystickMode::SinclairLeft, s, rows);
            &&& key_held(sl, 3, 0x01) <==> s.left
            &&& key_held(sl, 3, 0x02) <==> s.right
            &&& key_held(sl, 3, 0x04) <==> s.down
            &&& key_held(sl, 3, 0x08) <==> s.up
            &&& key_held(sl, 3, 0x10) <==> s.fire
        }),
        ({
            let sr = joystick_rows(JoystickMode::SinclairRight, s, rows);
            &&& key_held(sr, 4, 0x10) <==> s.left
            &&& key_held(sr, 4, 0x08) <==> s.right
            &&& key_held(sr, 4, 0x04) <==> s.down
            &&& key_held(sr, 4, 0x02) <==> s.up
            &&& key_held(sr, 4, 0x01) <==> s.fire
        }),
        ({
            let cu = joystick_rows(JoystickMode::Cursor, s, rows);
            &&& key_held(cu, 3, 0x10) <==> s.left
            &&& key_held(cu, 4, 0x10) <==> s.down
            &&& key_held(cu, 4, 0x08) <==> s.up
            &&& key_held(cu, 4, 0x04) <==> s.right
            &&& key_held(cu, 4, 0x01) <==> s.fire
            &&& key_held(cu, 0, 0x01) <==> (s.left || s.right || s.up || s.down)
        }),
{
    lemma_five_keys(rows[3], s.left, s.right, s.down, s.up, s.fire);
    lemma_five_keys(rows[4], s.fire, s.up, s.down, s.right, s.left);
    lemma_cursor_keys(rows[0], rows[3], rows[4], s.left, s.right, s.up, s.down, s.fire);
}

/// Apply `state` under `mode`: the Kempston mode writes only the port latch,
/// so host keyboard chords stay intact; the keyboard modes release the port,
/// clear the joystick keys and press the keys of the stick.
pub fn apply_joystick(mode: JoystickMode, state: JoystickState, k: &mut KempstonLatch, kb: &mut KeyMatrix)
    ensures
        final(k).stick() == (if mode is Kempston { state } else { released() }),
        final(kb).rows@ == joystick_rows(mode, state, old(kb).rows@),
{
    k.reset();
    let ghost r0 = kb.rows@;
    match mode {
        JoystickMode::Kempston => {
            k.right = state.right;
            k.left = state.left;
            k.down = state.down;
            k.up = state.up;
            k.fire = state.fire;
        },
        JoystickMode::SinclairLeft => {
            clear_joystick_matrix(kb);
            let ghost c = kb.rows@;
            kb.set_key(3, 0, state.left);
            kb.set_key(3, 1, state.right);
            kb.set_key(3, 2, state.down);
            kb.set_key(3, 3, state.up);
            kb.set_key(3, 4, state.fire);
            proof {
                assert(c[3] == c[3] | 0x1f) by {
                    let y = r0[3];
                    assert((y | 0x1f) == (y | 0x1f) | 0x1f) by (bit_vector);
                }
                let x = c[3];
                let (l, r, d, u, f) = (state.left, state.right, state.down, state.up, state.fire);
                assert(set_bit(set_bit(set_bit(set_bit(set_bit(x, 0, l), 1, r), 2, d), 3, u), 4, f)
                    == x & !(bit_if(l, 0x01) | bit_if(r, 0x02) | bit_if(d, 0x04) | bit_if(u, 0x08) | bit_if(f, 0x10))) by (bit_vector)
                    requires
                        x == x | 0x1f,
                ;
                assert(kb.rows@ =~= joystick_rows(mode, state, r0));
            }
        },
        JoystickMode::SinclairRight => {
            clear_joystick_matrix(kb);
            let ghost c = kb.rows@;
            kb.set_key(4, 4, state.left);
            kb.set_key(4, 3, state.right);
            kb.set_key(4, 2, state.down);
            kb.set_key(4, 1, state.up);
            kb.set_key(4, 0, state.fire);
            proof {
                assert(c[4] == c[4] | 0x1f) by {
                    let y = r0[4];
                    assert((y | 0x1f) == (y | 0x1f) | 0x1f) by (bit_vector);
                }
                let x = c[4];
                let (l, r, d, u, f) = (state.left, state.right, state.down, state.up, state.fire);
                assert(set_bit(set_bit(set_bit(set_bit(set_bit(x, 4, l), 3, r), 2, d), 1, u), 0, f)
                    == x & !(bit_if(f, 0x01) | bit_if(u, 0x02) | bit_if(d, 0x04) | bit_if(r, 0x08) | bit_if(l, 0x10))) by (bit_vector)
                    requires
                        x == x | 0x1f,
                ;
                assert(kb.rows@ =~= joystick_rows(mode, state, r0));
            }
        },
        JoystickMode::Cursor => {
            clear_joystick_matrix(kb);
            let ghost c = kb.rows@;
            let any_dir = state.left || state.right || state.up || state.down;
            kb.set_key(0, 0, any_dir);
            kb.set_key(3, 4, state.left);
            kb.set_key(4, 4, state.down);
            kb.set_key(4, 3, state.up);
            kb.set_key(4, 2, state.right);
            kb.set_key(4, 0, state.fire);
            proof {
                assert(c[0] == c[0] | 0x01) by {
                    let y = r0[0];
                    assert((y | 0x01) == (y | 0x01) | 0x01) by (bit_vector);
                }
                assert(c[3] == c[3] | 0x1f) by {
                    let y = r0[3];
                    assert((y | 0x1f) == (y | 0x1f) | 0x1f) by (bit_vector);
                }
                assert(c[4] == c[4] | 0x1f) by {
                    let y = r0[4];
                    assert((y | 0x1f) == (y | 0x1f) | 0x1f) by (bit_vector);
                }
                let (l, r, d, u, f) = (state.left, state.right, state.down, state.up, state.fire);
                let x0 = c[0];
                let x3 = c[3];
                let x4 = c[4];
                assert(set_bit(x0, 0, any_dir) == x0 & !bit_if(any_dir, 0x01)) by (bit_vector)
                    requires
                        x0 == x0 | 0x01,
                ;
                assert(set_bit(x3, 4, l) == x3 & !bit_if(l, 0x10)) by (bit_vector)
                    requires
                        x3 == x3 | 0x1f,
                ;
                assert(set_bit(set_bit(set_bit(set_bit(x4, 4, d), 3, u), 2, r), 0, f)
                    == x4 & !(bit_if(f, 0x01) | bit_if(r, 0x04) | bit_if(u, 0x08) | bit_if(d, 0x10))) by (bit_vector)
                    requires
                        x4 == x4 | 0x1f,
                ;
                assert(kb.rows@ =~= joystick_rows(mode, state, r0));
            }
        },
    }
}

} // verus!
