//! A model of the target machine, used to state and prove what the
//! emitted instruction sequences do.
//!
//! The machine has an address register `A`, a data register `D`, a
//! word-addressable memory, and a program counter.  Symbols are resolved
//! through a symbol table: the named registers sit at their fixed
//! addresses, and code labels resolve to instruction indices.  All
//! arithmetic is two's-complement on 16-bit words.

use vstd::prelude::*;
use crate::instr::{Comp, Dest, HInstr, Jump};

verus! {

/// The machine state.
#[verifier::ext_equal]
pub struct Mach {
    pub a: u16,
    pub d: u16,
    pub pc: int,
    pub mem: Map<int, u16>,
}

/// Truncation of an integer to a 16-bit word.
pub open spec fn w16(v: int) -> u16 {
    (v % 0x10000) as u16
}

/// A word read as a positive two's-complement value.
pub open spec fn signed_pos(v: u16) -> bool {
    v != 0 && v < 0x8000
}

/// A word read as a negative two's-complement value.
pub open spec fn signed_neg(v: u16) -> bool {
    v >= 0x8000
}

/// The value a computation yields, given the registers and the memory
/// word the address register selects.
pub open spec fn comp_val(c: Comp, a: u16, d: u16, m: u16) -> u16 {
    match c {
        Comp::Zero => 0,
        Comp::MinusOne => 0xffff,
        Comp::ValD => d,
        Comp::ValA => a,
        Comp::ValM => m,
        Comp::NotM => !m,
        Comp::NegM => w16(0x10000 - m),
        Comp::DPlusOne => w16(d + 1),
        Comp::DMinusOne => w16(d + 0xffff),
        Comp::AMinusOne => w16(a + 0xffff),
        Comp::MPlusOne => w16(m + 1),
        Comp::MMinusOne => w16(m + 0xffff),
        Comp::DPlusA => w16(d + a),
        Comp::DMinusA => w16(d + 0x10000 - a),
        Comp::MPlusD => w16(m + d),
        Comp::MMinusD => w16(m + 0x10000 - d),
        Comp::MAndD => m & d,
        Comp::MOrD => m | d,
    }
}

pub open spec fn writes_a(dst: Dest) -> bool {
    dst == Dest::RegA || dst == Dest::RegAM
}

pub open spec fn writes_d(dst: Dest) -> bool {
    dst == Dest::RegD || dst == Dest::RegMD
}

pub open spec fn writes_m(dst: Dest) -> bool {
    dst == Dest::RegM || dst == Dest::RegAM || dst == Dest::RegMD
}

/// Whether a jump condition holds of a computed value.
pub open spec fn jump_taken(j: Jump, v: u16) -> bool {
    match j {
        Jump::NoJump => false,
        Jump::Jmp => true,
        Jump::Jeq => v == 0,
        Jump::Jgt => signed_pos(v),
        Jump::Jlt => signed_neg(v),
        Jump::Jne => v != 0,
    }
}

/// One machine step over a program and a symbol table.  A label marker
/// only advances the program counter; a jump, when taken, continues at
/// the instruction index the address register holds.
pub open spec fn step(prog: Seq<HInstr>, stab: Map<Seq<char>, u16>, s: Mach) -> Mach {
    if 0 <= s.pc < prog.len() {
        match prog[s.pc] {
            HInstr::At(n) => Mach { a: n, pc: s.pc + 1, ..s },
            HInstr::AtSym(sym) => Mach { a: stab[sym], pc: s.pc + 1, ..s },
            HInstr::Mark(_) => Mach { pc: s.pc + 1, ..s },
            HInstr::C(dst, cmp, jmp) => {
                let m = s.mem[s.a as int];
                let v = comp_val(cmp, s.a, s.d, m);
                let a2 = if writes_a(dst) {
                    v
                } else {
                    s.a
                };
                Mach {
                    a: a2,
                    d: if writes_d(dst) {
                        v
                    } else {
                        s.d
                    },
                    mem: if writes_m(dst) {
                        s.mem.insert(s.a as int, v)
                    } else {
                        s.mem
                    },
                    pc: if jump_taken(jmp, v) {
                        a2 as int
                    } else {
                        s.pc + 1
                    },
                }
            },
        }
    } else {
        s
    }
}

/// A fixed number of machine steps.
pub open spec fn run_n(prog: Seq<HInstr>, stab: Map<Seq<char>, u16>, s: Mach, n: nat) -> Mach
    decreases n,
{
    if n == 0 {
        s
    } else {
        run_n(prog, stab, step(prog, stab, s), (n - 1) as nat)
    }
}

/// Steps compose: running a sum of steps runs them in sequence.
pub proof fn lemma_run_n_add(
    prog: Seq<HInstr>,
    stab: Map<Seq<char>, u16>,
    s: Mach,
    m: nat,
    n: nat,
)
    ensures
        run_n(prog, stab, s, m + n) == run_n(prog, stab, run_n(prog, stab, s, m), n),
    decreases m,
{
    if m > 0 {
        lemma_run_n_add(prog, stab, step(prog, stab, s), (m - 1) as nat, n);
        assert(m + n - 1 == (m - 1) + n);
    }
}

/// A symbol table that puts the named registers at their fixed
/// addresses.
pub open spec fn regs_resolved(stab: Map<Seq<char>, u16>) -> bool {
    &&& stab["SP"@] == 0
    &&& stab["LCL"@] == 1
    &&& stab["ARG"@] == 2
    &&& stab["THIS"@] == 3
    &&& stab["THAT"@] == 4
    &&& stab["R13"@] == 13
    &&& stab["R14"@] == 14
    &&& stab["R15"@] == 15
}

} // verus!
