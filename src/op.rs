use vstd::prelude::*;

verus! {

/// One decoded instruction. Each variant carries only the operand fields it needs:
/// `x` and `y` are register indices, `byte` an 8-bit immediate, `addr` a 12-bit
/// address and `nibble` a 4-bit immediate.
#[allow(non_camel_case_types)]
#[derive(Debug, Clone, Copy, PartialEq, Eq, Structural)]
pub enum Op {
    CLS,
    RET,
    SYS { addr: u16 },
    JP { addr: u16 },
    CALL { addr: u16 },
    SE { x: u8, byte: u8 },
    SNE { x: u8, byte: u8 },
    SE_VX_VY { x: u8, y: u8 },
    LD { x: u8, byte: u8 },
    ADD { x: u8, byte: u8 },
    LD_VX_VY { x: u8, y: u8 },
    OR_VX_VY { x: u8, y: u8 },
    AND_VX_VY { x: u8, y: u8 },
    XOR_VX_VY { x: u8, y: u8 },
    ADD_VX_VY { x: u8, y: u8 },
    SUB_VX_VY { x: u8, y: u8 },
    SHR_VX_VY { x: u8, y: u8 },
    SUBN_VX_VY { x: u8, y: u8 },
    SHL_VX_VY { x: u8, y: u8 },
    SNE_VX_VY { x: u8, y: u8 },
    LD_I { addr: u16 },
    JP_V0 { addr: u16 },
    RND { x: u8, byte: u8 },
    DRW { x: u8, y: u8, nibble: u8 },
    SKP { x: u8 },
    SKNP { x: u8 },
    LD_VX_DT { x: u8 },
    LD_VX_K { x: u8 },
    LD_DT_VX { x: u8 },
    LD_ST_VX { x: u8 },
    ADD_I_VX { x: u8 },
    LD_F_VX { x: u8 },
    LD_B_VX { x: u8 },
    LD_I_VX { x: u8 },
    LD_VX_I { x: u8 },
    INVALID,
}

/// The top nibble of a word: the instruction family.
pub open spec fn family_of(w: u16) -> u8 {
    (w / 4096) as u8
}

/// The second nibble of a word: the first register operand.
pub open spec fn x_of(w: u16) -> u8 {
    ((w / 256) % 16) as u8
}

/// The third nibble of a word: the second register operand.
pub open spec fn y_of(w: u16) -> u8 {
    ((w / 16) % 16) as u8
}

/// The low nibble of a word.
pub open spec fn n_of(w: u16) -> u8 {
    (w % 16) as u8
}

/// The low byte of a word.
pub open spec fn nn_of(w: u16) -> u8 {
    (w % 256) as u8
}

/// The low twelve bits of a word: an address.
pub open spec fn nnn_of(w: u16) -> u16 {
    (w % 4096) as u16
}

/// The instruction that a 16-bit word encodes, or `INVALID` where the word
/// matches no entry of the instruction table.
pub open spec fn decode_spec(w: u16) -> Op {
    let f = family_of(w);
    let x = x_of(w);
    let y = y_of(w);
    let n = n_of(w);
    let nn = nn_of(w);
    let nnn = nnn_of(w);
    if f == 0 {
        if w == 0x00E0 {
            Op::CLS
        } else if w == 0x00EE {
            Op::RET
        } else {
            Op::SYS { addr: nnn }
        }
    } else if f == 1 {
        Op::JP { addr: nnn }
    } else if f == 2 {
        Op::CALL { addr: nnn }
    } else if f == 3 {
        Op::SE { x, byte: nn }
    } else if f == 4 {
        Op::SNE { x, byte: nn }
    } else if f == 5 {
        if n == 0 {
            Op::SE_VX_VY { x, y }
        } else {
            Op::INVALID
        }
    } else if f == 6 {
        Op::LD { x, byte: nn }
    } else if f == 7 {
        Op::ADD { x, byte: nn }
    } else if f == 8 {
        if n == 0 {
            Op::LD_VX_VY { x, y }
        } else if n == 1 {
            Op::OR_VX_VY { x, y }
        } else if n == 2 {
            Op::AND_VX_VY { x, y }
        } else if n == 3 {
            Op::XOR_VX_VY { x, y }
        } else if n == 4 {
            Op::ADD_VX_VY { x, y }
        } else if n == 5 {
            Op::SUB_VX_VY { x, y }
        } else if n == 6 {
            Op::SHR_VX_VY { x, y }
        } else if n == 7 {
            Op::SUBN_VX_VY { x, y }
        } else if n == 0xE {
            Op::SHL_VX_VY { x, y }
        } else {
            Op::INVALID
        }
    } else if f == 9 {
        if n == 0 {
            Op::SNE_VX_VY { x, y }
        } else {
            Op::INVALID
        }
    } else if f == 0xA {
        Op::LD_I { addr: nnn }
    } else if f == 0xB {
        Op::JP_V0 { addr: nnn }
    } else if f == 0xC {
        Op::RND { x, byte: nn }
    } else if f == 0xD {
        Op::DRW { x, y, nibble: n }
    } else if f == 0xE {
        if nn == 0x9E {
            Op::SKP { x }
        } else if nn == 0xA1 {
            Op::SKNP { x }
        } else {
            Op::INVALID
        }
    } else {
        if nn == 0x07 {
            Op::LD_VX_DT { x }
        } else if nn == 0x0A {
            Op::LD_VX_K { x }
        } else if nn == 0x15 {
            Op::LD_DT_VX { x }
        } else if nn == 0x18 {
            Op::LD_ST_VX { x }
        } else if nn == 0x1E {
            Op::ADD_I_VX { x }
        } else if nn == 0x29 {
            Op::LD_F_VX { x }
        } else if nn == 0x33 {
            Op::LD_B_VX { x }
        } else if nn == 0x55 {
            Op::LD_I_VX { x }
        } else if nn == 0x65 {
            Op::LD_VX_I { x }
        } else {
            Op::INVALID
        }
    }
}

/// Operands are in range: registers and nibbles below 16, addresses below 4096.
pub open spec fn op_wf(op: Op) -> bool {
    match op {
        Op::SYS { addr } | Op::JP { addr } | Op::CALL { addr } | Op::LD_I { addr } | Op::JP_V0 {
            addr,
        } => addr < 4096,
        Op::SE { x, .. } | Op::SNE { x, .. } | Op::LD { x, .. } | Op::ADD { x, .. } | Op::RND {
            x,
            ..
        } => x < 16,
        Op::SE_VX_VY { x, y }
        | Op::LD_VX_VY { x, y }
        | Op::OR_VX_VY { x, y }
        | Op::AND_VX_VY { x, y }
        | Op::XOR_VX_VY { x, y }
        | Op::ADD_VX_VY { x, y }
        | Op::SUB_VX_VY { x, y }
        | Op::SHR_VX_VY { x, y }
        | Op::SUBN_VX_VY { x, y }
        | Op::SHL_VX_VY { x, y }
        | Op::SNE_VX_VY { x, y } => x < 16 && y < 16,
        Op::DRW { x, y, nibble } => x < 16 && y < 16 && nibble < 16,
        Op::SKP { x }
        | Op::SKNP { x }
        | Op::LD_VX_DT { x }
        | Op::LD_VX_K { x }
        | Op::LD_DT_VX { x }
        | Op::LD_ST_VX { x }
        | Op::ADD_I_VX { x }
        | Op::LD_F_VX { x }
        | Op::LD_B_VX { x }
        | Op::LD_I_VX { x }
        | Op::LD_VX_I { x } => x < 16,
        Op::CLS | Op::RET | Op::INVALID => true,
    }
}

/// Every decoded instruction has its operands in range.
pub proof fn lemma_decode_wf(w: u16)
    ensures
        op_wf(decode_spec(w)),
{
}

} // verus!
