//! Scripted key presses that type `LOAD ""` (optionally `CODE`) and Enter on
//! each model, and the wait for the 48 BASIC prompt between menu and keywords.

use vstd::prelude::*;
use crate::joystick::KeyMatrix;
use crate::machine::Model;

verus! {

/// Frames a scripted key is held.
pub const PRESS_FRAMES: u32 = 10;

/// Frames with no key between two presses.
pub const GAP_FRAMES: u32 = 5;

/// Frames to wait for the 48 BASIC prompt after leaving a menu.
pub const PROMPT_WAIT_FRAMES: u32 = 500;

/// Frames the prompt must be stable.
pub const PROMPT_STABLE_FRAMES: u32 = 20;

/// One step of a key script. A set of held keys is a 64-bit mask with bit
/// `8 * row + bit` for key `bit` of half-row `row`.
#[derive(Clone, Copy, Debug, PartialEq, Eq, Structural)]
pub enum KeyAction {
    /// Hold exactly the keys of `pressed` for `frames` frames.
    Hold { pressed: u64, frames: u32 },
    /// Run frames until the 48 BASIC prompt is stable, for at most `max_frames`.
    WaitPrompt { max_frames: u32 },
    /// Release every key.
    Release,
}

/// Mask bit of key `bit` in half-row `row`.
pub open spec fn key(row: u64, bit: u64) -> u64 {
    1u64 << ((8 * row + bit) as u64)
}

/// Keyword `LOAD` (key J in keyword mode).
pub open spec fn load_key() -> u64 {
    key(6, 3)
}

/// `"` (Symbol Shift and P).
pub open spec fn quote_keys() -> u64 {
    key(7, 1) | key(5, 0)
}

/// Extended mode (Caps Shift and Symbol Shift).
pub open spec fn extend_keys() -> u64 {
    key(0, 0) | key(7, 1)
}

/// Keyword `CODE` (key I in extended mode).
pub open spec fn code_key() -> u64 {
    key(5, 2)
}

pub open spec fn enter_key() -> u64 {
    key(6, 0)
}

/// Cursor down (Caps Shift and 6).
pub open spec fn down_keys() -> u64 {
    key(0, 0) | key(4, 4)
}

pub open spec fn hold(pressed: u64, frames: u32) -> KeyAction {
    KeyAction::Hold { pressed, frames }
}

/// 48K keyword mode: `LOAD ""` [`CODE`] Enter, with the ROM's debounce gaps.
pub open spec fn quotes_48k(with_code: bool) -> Seq<KeyAction> {
    seq![
        hold(load_key(), PRESS_FRAMES),
        hold(0, GAP_FRAMES),
        hold(quote_keys(), PRESS_FRAMES),
        hold(0, GAP_FRAMES),
        hold(quote_keys(), PRESS_FRAMES),
        hold(0, GAP_FRAMES),
    ] + (if with_code {
        seq![
            hold(extend_keys(), PRESS_FRAMES),
            hold(0, GAP_FRAMES),
            hold(code_key(), PRESS_FRAMES),
            hold(0, GAP_FRAMES),
        ]
    } else {
        Seq::empty()
    }) + seq![hold(enter_key(), PRESS_FRAMES), hold(0, 15), KeyAction::Release]
}

/// A 128K-style menu: cursor down three times to 48 BASIC, Enter, wait for
/// the prompt, then the 48K keywords.
pub open spec fn quotes_menu(with_code: bool) -> Seq<KeyAction> {
    seq![
        hold(down_keys(), PRESS_FRAMES),
        hold(0, GAP_FRAMES),
        hold(down_keys(), PRESS_FRAMES),
        hold(0, GAP_FRAMES),
        hold(down_keys(), PRESS_FRAMES),
        hold(0, GAP_FRAMES),
        hold(enter_key(), PRESS_FRAMES),
        hold(0, 10),
        KeyAction::WaitPrompt { max_frames: PROMPT_WAIT_FRAMES },
    ] + quotes_48k(with_code)
}

/// +2A: the menu Loader is the tape loader, so Enter alone loads a program;
/// `CODE` still goes through 48 BASIC.
pub open spec fn quotes_plus2a(with_code: bool) -> Seq<KeyAction> {
    if with_code {
        quotes_menu(true)
    } else {
        seq![hold(enter_key(), PRESS_FRAMES), hold(0, 10)]
    }
}

/// The script for `model`.
pub open spec fn quotes_script(model: Model, with_code: bool) -> Seq<KeyAction> {
    match model {
        Model::Spectrum16K | Model::Spectrum48 | Model::TimexTC2048 | Model::TimexTS2068 => quotes_48k(with_code),
        Model::SpectrumPlus2A => quotes_plus2a(with_code),
        _ => quotes_menu(with_code),
    }
}

/// The 48K keyword script types `LOAD` (J), then `"` (Symbol Shift and P)
/// twice, then, with `CODE`, Extend mode (Caps Shift and Symbol Shift) and I,
/// then Enter: each key held for `PRESS_FRAMES` frames and followed by
/// `GAP_FRAMES` frames with no key; after Enter, 15 frames with no key and a
/// release of every key.
pub proof fn lemma_48k_script_types_load_quotes(with_code: bool)
    ensures
        ({
            let s = quotes_48k(with_code);
            let c: int = if with_code { 4 } else { 0 };
            &&& s.len() == 9 + c
            &&& s[0] == (KeyAction::Hold { pressed: 1u64 << 51u64, frames: 10 })
            &&& s[2] == (KeyAction::Hold { pressed: (1u64 << 57u64) | (1u64 << 40u64), frames: 10 })
            &&& s[4] == (KeyAction::Hold { pressed: (1u64 << 57u64) | (1u64 << 40u64), frames: 10 })
            &&& with_code ==> s[6] == (KeyAction::Hold { pressed: (1u64 << 0u64) | (1u64 << 57u64), frames: 10 })
            &&& with_code ==> s[8] == (KeyAction::Hold { pressed: 1u64 << 42u64, frames: 10 })
            &&& s[6 + c] == (KeyAction::Hold { pressed: 1u64 << 48u64, frames: 10 })
            &&& forall|k: int| 0 <= k < 6 + c && k % 2 == 1 ==> #[trigger] s[k] == (KeyAction::Hold { pressed: 0, frames: 5 })
            &&& s[7 + c] == (KeyAction::Hold { pressed: 0, frames: 15 })
            &&& s[8 + c] == KeyAction::Release
        }),
{
    assert(key(6, 3) == 1u64 << 51u64 && key(7, 1) == 1u64 << 57u64 && key(5, 0) == 1u64 << 40u64);
    assert(key(0, 0) == 1u64 << 0u64 && key(5, 2) == 1u64 << 42u64 && key(6, 0) == 1u64 << 48u64);
}

/// Every model but the +2A loading a program (whose menu Loader needs Enter
/// alone) reaches 48 BASIC and ends its script with the 48K keyword script.
pub proof fn lemma_scripts_end_in_48k_keywords(model: Model, with_code: bool)
    requires
        !(model is SpectrumPlus2A && !with_code),
    ensures
        ({
            let s = quotes_script(model, with_code);
            let q = quotes_48k(with_code);
            &&& s.len() >= q.len()
            &&& s.skip(s.len() - q.len()) == q
        }),
{
    let s = quotes_script(model, with_code);
    let q = quotes_48k(with_code);
    if !(model is Spectrum16K || model is Spectrum48 || model is TimexTC2048 || model is TimexTS2068) {
        assert(s.skip(s.len() - q.len()) =~= q);
    } else {
        assert(s.skip(0) =~= q);
    }
}

/// The 128K-style menu script moves the menu bar down three times (Caps
/// Shift and 6), selects with Enter, waits up to 500 frames for the 48 BASIC
/// prompt, and then types the 48K keywords.
pub proof fn lemma_menu_script(with_code: bool)
    ensures
        ({
            let s = quotes_menu(with_code);
            &&& s.len() == 9 + quotes_48k(with_code).len()
            &&& s[0] == (KeyAction::Hold { pressed: (1u64 << 0u64) | (1u64 << 36u64), frames: 10 })
            &&& s[2] == (KeyAction::Hold { pressed: (1u64 << 0u64) | (1u64 << 36u64), frames: 10 })
            &&& s[4] == (KeyAction::Hold { pressed: (1u64 << 0u64) | (1u64 << 36u64), frames: 10 })
            &&& s[1] == (KeyAction::Hold { pressed: 0, frames: 5 })
            &&& s[3] == (KeyAction::Hold { pressed: 0, frames: 5 })
            &&& s[5] == (KeyAction::Hold { pressed: 0, frames: 5 })
            &&& s[6] == (KeyAction::Hold { pressed: 1u64 << 48u64, frames: 10 })
            &&& s[7] == (KeyAction::Hold { pressed: 0, frames: 10 })
            &&& s[8] == (KeyAction::WaitPrompt { max_frames: 500 })
            &&& s.skip(9) == quotes_48k(with_code)
        }),
{
    assert(key(0, 0) == 1u64 << 0u64 && key(4, 4) == 1u64 << 36u64 && key(6, 0) == 1u64 << 48u64);
    assert(quotes_menu(with_code).skip(9) =~= quotes_48k(with_code));
}

fn key_bit(row: u64, bit: u64) -> (r: u64)
    requires
        row < 8,
        bit < 8,
    ensures
        r == key(row, bit),
{
    1u64 << (8 * row + bit)
}

fn push_hold(v: &mut Vec<KeyAction>, pressed: u64, frames: u32)
    ensures
        final(v)@ == old(v)@.push(hold(pressed, frames)),
{
    v.push(KeyAction::Hold { pressed, frames });
}

/// Script `LOAD ""` [`CODE`] Enter in 48K keyword mode.
pub fn type_load_quotes_48k(with_code: bool) -> (s: Vec<KeyAction>)
    ensures
        s@ == quotes_48k(with_code),
{
    let mut s: Vec<KeyAction> = Vec::new();
    push_hold(&mut s, key_bit(6, 3), PRESS_FRAMES);
    push_hold(&mut s, 0, GAP_FRAMES);
    let quote = key_bit(7, 1) | key_bit(5, 0);
    push_hold(&mut s, quote, PRESS_FRAMES);
    push_hold(&mut s, 0, GAP_FRAMES);
    push_hold(&mut s, quote, PRESS_FRAMES);
    push_hold(&mut s, 0, GAP_FRAMES);
    if with_code {
        push_hold(&mut s, key_bit(0, 0) | key_bit(7, 1), PRESS_FRAMES);
        push_hold(&mut s, 0, GAP_FRAMES);
        push_hold(&mut s, key_bit(5, 2), PRESS_FRAMES);
        push_hold(&mut s, 0, GAP_FRAMES);
    }
    push_hold(&mut s, key_bit(6, 0), PRESS_FRAMES);
    push_hold(&mut s, 0, 15);
    s.push(KeyAction::Release);
    assert(s@ =~= quotes_48k(with_code));
    s
}

/// 128K menu: cursor down to 48 BASIC, Enter, wait for the prompt, then keywords.
pub fn type_load_quotes_128k(with_code: bool) -> (s: Vec<KeyAction>)
    ensures
        s@ == quotes_menu(with_code),
{
    let mut s: Vec<KeyAction> = Vec::new();
    let down = key_bit(0, 0) | key_bit(4, 4);
    let mut i: u32 = 0;
    while i < 3
        invariant
            i <= 3,
            down == down_keys(),
            s@ == quotes_menu(with_code).take(2 * i),
        decreases 3 - i,
    {
        push_hold(&mut s, down, PRESS_FRAMES);
        push_hold(&mut s, 0, GAP_FRAMES);
        assert(s@ =~= quotes_menu(with_code).take(2 * (i + 1)));
        i += 1;
    }
    push_hold(&mut s, key_bit(6, 0), PRESS_FRAMES);
    push_hold(&mut s, 0, 10);
    s.push(KeyAction::WaitPrompt { max_frames: PROMPT_WAIT_FRAMES });
    let mut rest = type_load_quotes_48k(with_code);
    s.append(&mut rest);
    assert(s@ =~= quotes_menu(with_code));
    s
}

/// +3 menu: cursor down to 48 BASIC (the menu Loader is the disk), Enter,
/// then the keywords.
pub fn type_load_quotes_plus3(with_code: bool) -> (s: Vec<KeyAction>)
    ensures
        s@ == quotes_menu(with_code),
{
    type_load_quotes_128k(with_code)
}

/// +2A menu: Enter on Loader for a program; `CODE` via 48 BASIC.
pub fn type_load_quotes_plus2a(with_code: bool) -> (s: Vec<KeyAction>)
    ensures
        s@ == quotes_plus2a(with_code),
{
    if with_code {
        return type_load_quotes_plus3(true);
    }
    let mut s: Vec<KeyAction> = Vec::new();
    push_hold(&mut s, key_bit(6, 0), PRESS_FRAMES);
    push_hold(&mut s, 0, 10);
    assert(s@ =~= quotes_plus2a(with_code));
    s
}

/// Grey +2 menu: as the 128K menu.
pub fn type_load_quotes_plus2(with_code: bool) -> (s: Vec<KeyAction>)
    ensures
        s@ == quotes_menu(with_code),
{
    type_load_quotes_128k(with_code)
}

/// Model-aware `LOAD ""` [`CODE`] script (the +3e menu is that of the +3).
pub fn type_load_quotes(model: Model, with_code: bool) -> (s: Vec<KeyAction>)
    ensures
        s@ == quotes_script(model, with_code),
{
    match model {
        Model::Spectrum16K | Model::Spectrum48 | Model::TimexTC2048 | Model::TimexTS2068 => type_load_quotes_48k(
            with_code,
        ),
        Model::Spectrum128 => type_load_quotes_128k(with_code),
        Model::SpectrumPlus2 => type_load_quotes_plus2(with_code),
        Model::SpectrumPlus2A => type_load_quotes_plus2a(with_code),
        Model::SpectrumPlus3 | Model::SpectrumPlus3e => type_load_quotes_plus3(with_code),
        Model::Pentagon128 => type_load_quotes_128k(with_code),
    }
}

/// One frame of the wait for the 48 BASIC prompt: `stable` counts the frames
/// in a row with `pc` in the 48K ROM's main loop (`$12A0..=$1600`); the wait
/// ends when it reaches [`PROMPT_STABLE_FRAMES`].
pub fn basic_prompt_step(stable: u32, pc: u16) -> (r: (u32, bool))
    requires
        stable < u32::MAX,
    ensures
        r.0 == (if 0x12A0 <= pc <= 0x1600 { stable + 1 } else { 0 }),
        r.1 == (r.0 >= PROMPT_STABLE_FRAMES),
{
    if 0x12A0 <= pc && pc <= 0x1600 {
        let s = stable + 1;
        (s, s >= PROMPT_STABLE_FRAMES)
    } else {
        (0, false)
    }
}

/// Key matrix row `row` while exactly the keys of `pressed` are held.
pub open spec fn held_row(pressed: u64, row: int) -> u8 {
    0x1fu8 & !(((pressed >> ((8 * row) as u64)) & 0xff) as u8)
}

impl KeyMatrix {
    /// The matrix with exactly the keys of `pressed` held.
    pub fn holding(pressed: u64) -> (kb: Self)
        ensures
            kb.rows@ == Seq::new(8, |r: int| held_row(pressed, r)),
    {
        let mut rows: [u8; 8] = [0x1f, 0x1f, 0x1f, 0x1f, 0x1f, 0x1f, 0x1f, 0x1f];
        let mut r: usize = 0;
        while r < 8
            invariant
                r <= 8,
                rows@.len() == 8,
                forall|k: int| 0 <= k < r ==> rows@[k] == held_row(pressed, k),
            decreases 8 - r,
        {
            let byte = ((pressed >> (8 * r as u64)) & 0xff) as u8;
            rows.set(r, 0x1f & !byte);
            r += 1;
        }
        let kb = KeyMatrix { rows };
        assert(kb.rows@ =~= Seq::new(8, |r: int| held_row(pressed, r)));
        kb
    }
}

} // verus!
