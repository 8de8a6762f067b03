//! Locating the test code in a z80test TAP image, and the harness errors.

use vstd::prelude::*;
use crate::machine::MachineBuildError;
use crate::tap::{blocks_view, le16, TapImage, TapeError};
use crate::text::{dec, dec_chars, hex, hex_chars};

verus! {

/// z80test load and entry address.
pub const CODE_ENTRY: u16 = 0x8000;

/// Errors from the z80test TAP harness.
#[derive(Debug)]
pub enum Z80testError {
    MissingRom { path: String, source: String },
    TapLoad { path: String, source: TapeError },
    CodeLengthMismatch { header_len: usize, block_len: usize },
    NoCodeBlock,
    WrongCodeAddress { expected: u16, got: u16 },
    Machine(MachineBuildError),
}

/// `0x` and lowercase hexadecimal digits.
pub open spec fn alt_hex(n: nat) -> Seq<char> {
    seq!['0', 'x'] + hex_chars(n)
}

pub open spec fn tape_error_text(e: TapeError) -> Seq<char> {
    match e {
        TapeError::Io(m) => m@,
        TapeError::Format(m) => m@,
    }
}

pub open spec fn z80test_error_text(e: Z80testError) -> Seq<char> {
    match e {
        Z80testError::MissingRom { path, source } => "missing 48K ROM ("@ + path@
            + "): run ./scripts/fetch_roms.sh ("@ + source@ + ")"@,
        Z80testError::TapLoad { path, source } => "TAP "@ + path@ + ": "@ + tape_error_text(source),
        Z80testError::CodeLengthMismatch { header_len, block_len } => "CODE data length mismatch: header "@
            + dec_chars(header_len as nat) + ", block "@ + dec_chars(block_len as nat),
        Z80testError::NoCodeBlock => "no CODE block found in TAP"@,
        Z80testError::WrongCodeAddress { expected, got } => "expected CODE at "@ + alt_hex(expected as nat)
            + ", got "@ + alt_hex(got as nat),
        Z80testError::Machine(MachineBuildError::InvalidRom(m)) => "invalid ROM: "@ + m@,
    }
}

impl Z80testError {
    pub fn to_string(&self) -> (r: String)
        ensures
            r@ == z80test_error_text(*self),
    {
        let mut s = String::new();
        match self {
            Z80testError::MissingRom { path, source } => {
                s.append("missing 48K ROM (");
                s.append(path.as_str());
                s.append("): run ./scripts/fetch_roms.sh (");
                s.append(source.as_str());
                s.append(")");
            },
            Z80testError::TapLoad { path, source } => {
                s.append("TAP ");
                s.append(path.as_str());
                s.append(": ");
                s.append(source.to_string().as_str());
            },
            Z80testError::CodeLengthMismatch { header_len, block_len } => {
                s.append("CODE data length mismatch: header ");
                s.append(dec(*header_len as u64).as_str());
                s.append(", block ");
                s.append(dec(*block_len as u64).as_str());
            },
            Z80testError::NoCodeBlock => {
                s.append("no CODE block found in TAP");
            },
            Z80testError::WrongCodeAddress { expected, got } => {
                s.append("expected CODE at 0x");
                s.append(hex(*expected as u64).as_str());
                s.append(", got 0x");
                s.append(hex(*got as u64).as_str());
                proof {
                    reveal_strlit("expected CODE at 0x");
                    reveal_strlit("expected CODE at ");
                    reveal_strlit(", got 0x");
                    reveal_strlit(", got ");
                }
            },
            Z80testError::Machine(m) => {
                s.append(m.to_string().as_str());
            },
        }
        s
    }
}

/// A TAP header of a CODE file: 18 bytes or more, flag `0`, type `3`.
pub open spec fn is_code_header(h: Seq<u8>) -> bool {
    h.len() >= 18 && h[0] == 0x00 && h[1] == 0x03
}

/// Index of the first CODE header that has a block after it, from `i` on.
pub open spec fn code_header_from(blocks: Seq<Seq<u8>>, i: int) -> Option<int>
    decreases blocks.len() - i,
{
    if i < 0 || i + 1 >= blocks.len() {
        None
    } else if is_code_header(blocks[i]) {
        Some(i)
    } else {
        code_header_from(blocks, i + 1)
    }
}

/// Locate the CODE block of a z80test TAP: (load address, block bytes).
pub fn code_block(image: &TapImage) -> (r: Result<(u16, &[u8]), Z80testError>)
    ensures
        match code_header_from(blocks_view(image.blocks@), 0) {
            None => r matches Err(Z80testError::NoCodeBlock),
            Some(i) => {
                let h = blocks_view(image.blocks@)[i];
                let d = blocks_view(image.blocks@)[i + 1];
                if d.len() != le16(h, 12) + 2 {
                    r matches Err(Z80testError::CodeLengthMismatch { header_len, block_len }) && header_len == le16(h, 12)
                        && block_len == d.len()
                } else {
                    r matches Ok((addr, data)) && addr == le16(h, 14) && data@ == d
                }
            },
        },
{
    let n = image.blocks.len();
    let ghost bv = blocks_view(image.blocks@);
    let mut i: usize = 0;
    while n > 0 && i < n - 1
        invariant
            n == image.blocks@.len(),
            bv == blocks_view(image.blocks@),
            i <= n,
            code_header_from(bv, 0) == code_header_from(bv, i as int),
        decreases n - i,
    {
        let header = &image.blocks[i];
        let data = &image.blocks[i + 1];
        assert(bv[i as int] == header@);
        assert(bv[i + 1] == data@);
        if header.len() >= 18 && header[0] == 0x00 && header[1] == 0x03 {
            let addr = (header[14] as u16) | ((header[15] as u16) << 8);
            let len = header[12] as usize + 256 * (header[13] as usize);
            assert(addr == le16(header@, 14)) by {
                let lo = header@[14];
                let hi = header@[15];
                assert((lo as u16) | ((hi as u16) << 8) == lo as u16 + 256 * (hi as u16)) by (bit_vector);
            }
            if data.len() != len + 2 {
                return Err(Z80testError::CodeLengthMismatch { header_len: len, block_len: data.len() });
            }
            return Ok((addr, data.as_slice()));
        }
        i += 1;
    }
    Err(Z80testError::NoCodeBlock)
}

} // verus!
