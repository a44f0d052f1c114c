//! What the emitted instruction sequences do, proved over the machine
//! model of [`crate::machine`].
//!
//! Each lemma below runs one generated fragment from its first
//! instruction on an arbitrary machine state meeting the stated stack
//! discipline, and pins down the stack height, the computed values and
//! the untouched remainder of memory.

use vstd::prelude::*;
use crate::gen::{
    binary_seq, call_seq, ci, cmp_seq, function_seq, jmp_false_label, mem_seg_sym, pop_seq,
    push_seq, rep_label, ret_label, return_seq, stack_push_seq, static_sym, unary_seq,
};
use crate::translate::bootstrap_prefix_seq;
use crate::instr::{Comp, Dest, HInstr, Jump};
use crate::machine::{
    Mach, comp_val, jump_taken, regs_resolved, run_n, step, w16,
};

verus! {

broadcast use vstd::seq::group_seq_axioms;

/// The two's-complement combination a binary mnemonic computes: `x` is
/// the element below the top, `y` the top.
pub open spec fn binop_val(cm: Comp, x: u16, y: u16) -> u16 {
    match cm {
        Comp::MPlusD => w16(x + y),
        Comp::MMinusD => w16(x + 0x10000 - y),
        Comp::MAndD => x & y,
        Comp::MOrD => x | y,
        _ => 0,
    }
}

/// A binary operation pops the top `y`, combines it with the new top `x`
/// in place, and leaves the stack exactly one element shorter; no other
/// memory word changes.
pub proof fn lemma_binary_op(cm: Comp, stab: Map<Seq<char>, u16>, s0: Mach, x: u16, y: u16, sp: u16)
    requires
        regs_resolved(stab),
        cm == Comp::MPlusD || cm == Comp::MMinusD || cm == Comp::MAndD || cm == Comp::MOrD,
        s0.pc == 0,
        16 <= sp,
        s0.mem[0] == sp,
        s0.mem[sp as int - 1] == y,
        s0.mem[sp as int - 2] == x,
    ensures
        run_n(binary_seq(cm), stab, s0, 5).mem[0] == sp - 1,
        run_n(binary_seq(cm), stab, s0, 5).mem[sp as int - 2] == binop_val(cm, x, y),
        run_n(binary_seq(cm), stab, s0, 5).pc == 5,
        forall|k: int|
            k != 0 && k != sp as int - 2 ==> run_n(binary_seq(cm), stab, s0, 5).mem[k]
                == s0.mem[k],
{
    let p = binary_seq(cm);
    let s1 = step(p, stab, s0);
    assert(s1.a == 0 && s1.pc == 1);
    let s2 = step(p, stab, s1);
    assert(s2.a == sp - 1 && s2.mem[0] == sp - 1 && s2.pc == 2);
    let s3 = step(p, stab, s2);
    assert(s3.d == y && s3.pc == 3);
    let s4 = step(p, stab, s3);
    assert(s4.a == sp - 2 && s4.pc == 4);
    let s5 = step(p, stab, s4);
    assert(s5.mem[sp as int - 2] == binop_val(cm, x, y));
    assert(s5.pc == 5);
    assert(run_n(p, stab, s0, 5) == s5) by {
        assert(run_n(p, stab, s0, 5) == run_n(p, stab, s1, 4));
        assert(run_n(p, stab, s1, 4) == run_n(p, stab, s2, 3));
        assert(run_n(p, stab, s2, 3) == run_n(p, stab, s3, 2));
        assert(run_n(p, stab, s3, 2) == run_n(p, stab, s4, 1));
        assert(run_n(p, stab, s4, 1) == run_n(p, stab, s5, 0));
    }
}

/// A unary operation rewrites the top element in place and leaves the
/// stack height unchanged.
pub open spec fn unop_val(cm: Comp, y: u16) -> u16 {
    match cm {
        Comp::NegM => w16(0x10000 - y),
        Comp::NotM => !y,
        _ => 0,
    }
}

pub proof fn lemma_unary_op(cm: Comp, stab: Map<Seq<char>, u16>, s0: Mach, y: u16, sp: u16)
    requires
        regs_resolved(stab),
        cm == Comp::NegM || cm == Comp::NotM,
        s0.pc == 0,
        16 <= sp,
        s0.mem[0] == sp,
        s0.mem[sp as int - 1] == y,
    ensures
        run_n(unary_seq(cm), stab, s0, 5).mem[0] == sp,
        run_n(unary_seq(cm), stab, s0, 5).mem[sp as int - 1] == unop_val(cm, y),
        run_n(unary_seq(cm), stab, s0, 5).pc == 5,
        forall|k: int|
            k != 0 && k != sp as int - 1 ==> run_n(unary_seq(cm), stab, s0, 5).mem[k] == s0.mem[k],
{
    let p = unary_seq(cm);
    let s1 = step(p, stab, s0);
    let s2 = step(p, stab, s1);
    assert(s2.a == sp - 1 && s2.mem[0] == sp - 1 && s2.pc == 2);
    let s3 = step(p, stab, s2);
    assert(s3.mem[sp as int - 1] == unop_val(cm, y) && s3.d == unop_val(cm, y) && s3.pc == 3);
    let s4 = step(p, stab, s3);
    assert(s4.a == 0 && s4.pc == 4);
    let s5 = step(p, stab, s4);
    assert(s5.mem[0] == sp && s5.pc == 5);
    assert(run_n(p, stab, s0, 5) == s5) by {
        assert(run_n(p, stab, s0, 5) == run_n(p, stab, s1, 4));
        assert(run_n(p, stab, s1, 4) == run_n(p, stab, s2, 3));
        assert(run_n(p, stab, s2, 3) == run_n(p, stab, s3, 2));
        assert(run_n(p, stab, s3, 2) == run_n(p, stab, s4, 1));
        assert(run_n(p, stab, s4, 1) == run_n(p, stab, s5, 0));
    }
}

/// A comparison pops both operands, branches on the sign of `x - y`, and
/// writes the all-bits-set true sentinel, or zero, at the new top; the
/// stack is one element shorter.  Equality testing is exact for every
/// pair of words.
pub proof fn lemma_cmp_op(
    j: Jump,
    jc: nat,
    stab: Map<Seq<char>, u16>,
    s0: Mach,
    x: u16,
    y: u16,
    sp: u16,
)
    requires
        regs_resolved(stab),
        j == Jump::Jeq || j == Jump::Jgt || j == Jump::Jlt,
        stab[jmp_false_label(jc)] == 11,
        s0.pc == 0,
        18 <= sp,
        s0.mem[0] == sp,
        s0.mem[sp as int - 1] == y,
        s0.mem[sp as int - 2] == x,
    ensures
        run_n(cmp_seq(j, jc), stab, s0, 17).mem[0] == sp - 1,
        run_n(cmp_seq(j, jc), stab, s0, 17).mem[sp as int - 2] == (if jump_taken(
            j,
            w16(x + 0x10000 - y),
        ) {
            0xffff as u16
        } else {
            0 as u16
        }),
        run_n(cmp_seq(j, jc), stab, s0, 17).pc == 17,
        forall|k: int|
            k != 0 && k != 15 && k != sp as int - 2 ==> run_n(cmp_seq(j, jc), stab, s0, 17).mem[k]
                == s0.mem[k],
{
    let p = cmp_seq(j, jc);
    let s1 = step(p, stab, s0);
    assert(s1.a == 15 && s1.pc == 1);
    let s2 = step(p, stab, s1);
    assert(s2.mem[15] == 0xffff && s2.pc == 2);
    let s3 = step(p, stab, s2);
    assert(s3.a == 0 && s3.pc == 3);
    let s4 = step(p, stab, s3);
    assert(s4.a == sp - 1 && s4.mem[0] == sp - 1 && s4.pc == 4);
    let s5 = step(p, stab, s4);
    assert(s5.d == y && s5.pc == 5);
    let s6 = step(p, stab, s5);
    assert(s6.a == sp - 2 && s6.pc == 6);
    let s7 = step(p, stab, s6);
    assert(s7.d == w16(x + 0x10000 - y) && s7.pc == 7);
    let s8 = step(p, stab, s7);
    assert(s8.a == 11 && s8.pc == 8);
    let s9 = step(p, stab, s8);
    let taken = jump_taken(j, w16(x + 0x10000 - y));
    assert(s9.pc == if taken {
        11int
    } else {
        9int
    });
    if taken {
        let t12 = step(p, stab, s9);
        assert(t12.pc == 12);
        let t13 = step(p, stab, t12);
        assert(t13.a == 15 && t13.pc == 13);
        let t14 = step(p, stab, t13);
        assert(t14.d == 0xffff && t14.pc == 14);
        let t15 = step(p, stab, t14);
        assert(t15.a == 0 && t15.pc == 15);
        let t16 = step(p, stab, t15);
        assert(t16.a == sp - 2 && t16.pc == 16);
        let t17 = step(p, stab, t16);
        assert(t17.mem[sp as int - 2] == 0xffff && t17.pc == 17);
        assert(run_n(p, stab, s0, 17) == t17) by {
            assert(run_n(p, stab, s0, 17) == run_n(p, stab, s1, 16));
            assert(run_n(p, stab, s1, 16) == run_n(p, stab, s2, 15));
            assert(run_n(p, stab, s2, 15) == run_n(p, stab, s3, 14));
            assert(run_n(p, stab, s3, 14) == run_n(p, stab, s4, 13));
            assert(run_n(p, stab, s4, 13) == run_n(p, stab, s5, 12));
            assert(run_n(p, stab, s5, 12) == run_n(p, stab, s6, 11));
            assert(run_n(p, stab, s6, 11) == run_n(p, stab, s7, 10));
            assert(run_n(p, stab, s7, 10) == run_n(p, stab, s8, 9));
            assert(run_n(p, stab, s8, 9) == run_n(p, stab, s9, 8));
            assert(run_n(p, stab, s9, 8) == run_n(p, stab, t12, 7));
            assert(run_n(p, stab, t12, 7) == run_n(p, stab, t13, 6));
            assert(run_n(p, stab, t13, 6) == run_n(p, stab, t14, 5));
            assert(run_n(p, stab, t14, 5) == run_n(p, stab, t15, 4));
            assert(run_n(p, stab, t15, 4) == run_n(p, stab, t16, 3));
            assert(run_n(p, stab, t16, 3) == run_n(p, stab, t17, 2));
            assert(step(p, stab, t17) == t17);
            assert(run_n(p, stab, t17, 2) == run_n(p, stab, t17, 1));
            assert(run_n(p, stab, t17, 1) == run_n(p, stab, t17, 0));
        }
    } else {
        let u10 = step(p, stab, s9);
        assert(u10.a == 15 && u10.pc == 10);
        let u11 = step(p, stab, u10);
        assert(u11.mem[15] == 0 && u11.pc == 11);
        let u12 = step(p, stab, u11);
        assert(u12.pc == 12);
        let u13 = step(p, stab, u12);
        assert(u13.a == 15 && u13.pc == 13);
        let u14 = step(p, stab, u13);
        assert(u14.d == 0 && u14.pc == 14);
        let u15 = step(p, stab, u14);
        assert(u15.a == 0 && u15.pc == 15);
        let u16r = step(p, stab, u15);
        assert(u16r.a == sp - 2 && u16r.pc == 16);
        let u17 = step(p, stab, u16r);
        assert(u17.mem[sp as int - 2] == 0 && u17.pc == 17);
        assert(run_n(p, stab, s0, 17) == u17) by {
            assert(run_n(p, stab, s0, 17) == run_n(p, stab, s1, 16));
            assert(run_n(p, stab, s1, 16) == run_n(p, stab, s2, 15));
            assert(run_n(p, stab, s2, 15) == run_n(p, stab, s3, 14));
            assert(run_n(p, stab, s3, 14) == run_n(p, stab, s4, 13));
            assert(run_n(p, stab, s4, 13) == run_n(p, stab, s5, 12));
            assert(run_n(p, stab, s5, 12) == run_n(p, stab, s6, 11));
            assert(run_n(p, stab, s6, 11) == run_n(p, stab, s7, 10));
            assert(run_n(p, stab, s7, 10) == run_n(p, stab, s8, 9));
            assert(run_n(p, stab, s8, 9) == run_n(p, stab, s9, 8));
            assert(run_n(p, stab, s9, 8) == run_n(p, stab, u10, 7));
            assert(run_n(p, stab, u10, 7) == run_n(p, stab, u11, 6));
            assert(run_n(p, stab, u11, 6) == run_n(p, stab, u12, 5));
            assert(run_n(p, stab, u12, 5) == run_n(p, stab, u13, 4));
            assert(run_n(p, stab, u13, 4) == run_n(p, stab, u14, 3));
            assert(run_n(p, stab, u14, 3) == run_n(p, stab, u15, 2));
            assert(run_n(p, stab, u15, 2) == run_n(p, stab, u16r, 1));
            assert(run_n(p, stab, u16r, 1) == run_n(p, stab, u17, 0));
        }
    }
}

/// What `push constant c` emits.
pub open spec fn push_const_seq(c: u16) -> Seq<HInstr> {
    seq![HInstr::At(c), ci(Dest::RegD, Comp::ValA)] + stack_push_seq()
}

/// Pushing two constants and adding them leaves their truncated sum on
/// top of the stack, with a net stack-height change of plus one.
pub proof fn lemma_push_push_add(
    c1: u16,
    c2: u16,
    stab: Map<Seq<char>, u16>,
    s0: Mach,
    sp: u16,
)
    requires
        regs_resolved(stab),
        s0.pc == 0,
        16 <= sp <= 0xfffd,
        s0.mem[0] == sp,
    ensures
        push_seq("constant"@, c1, Seq::empty()) == Option::Some(push_const_seq(c1)),
        run_n(
            push_const_seq(c1) + push_const_seq(c2) + binary_seq(Comp::MPlusD),
            stab,
            s0,
            17,
        ).mem[0] == sp + 1,
        run_n(
            push_const_seq(c1) + push_const_seq(c2) + binary_seq(Comp::MPlusD),
            stab,
            s0,
            17,
        ).mem[sp as int] == w16(c1 + c2),
        run_n(push_const_seq(c1) + push_const_seq(c2) + binary_seq(Comp::MPlusD), stab, s0, 17).pc
            == 17,
{
    let p = push_const_seq(c1) + push_const_seq(c2) + binary_seq(Comp::MPlusD);
    assert(push_const_seq(c1).len() == 6 && binary_seq(Comp::MPlusD).len() == 5);
    let s1 = step(p, stab, s0);
    assert(s1.a == c1 && s1.pc == 1);
    let s2 = step(p, stab, s1);
    assert(s2.d == c1 && s2.pc == 2);
    let s3 = step(p, stab, s2);
    assert(s3.a == 0 && s3.pc == 3);
    let s4 = step(p, stab, s3);
    assert(s4.mem[0] == sp + 1 && s4.a == sp + 1 && s4.pc == 4);
    let s5 = step(p, stab, s4);
    assert(s5.a == sp && s5.pc == 5);
    let s6 = step(p, stab, s5);
    assert(s6.mem[sp as int] == c1 && s6.pc == 6);
    let s7 = step(p, stab, s6);
    assert(s7.a == c2 && s7.pc == 7);
    let s8 = step(p, stab, s7);
    assert(s8.d == c2 && s8.pc == 8);
    let s9 = step(p, stab, s8);
    assert(s9.a == 0 && s9.pc == 9);
    let s10 = step(p, stab, s9);
    assert(s10.mem[0] == sp + 2 && s10.a == sp + 2 && s10.pc == 10);
    let s11 = step(p, stab, s10);
    assert(s11.a == sp + 1 && s11.pc == 11);
    let s12 = step(p, stab, s11);
    assert(s12.mem[sp as int + 1] == c2 && s12.pc == 12);
    let s13 = step(p, stab, s12);
    assert(s13.a == 0 && s13.pc == 13);
    let s14 = step(p, stab, s13);
    assert(s14.mem[0] == sp + 1 && s14.a == sp + 1 && s14.pc == 14);
    let s15 = step(p, stab, s14);
    assert(s15.d == c2 && s15.pc == 15);
    let s16 = step(p, stab, s15);
    assert(s16.a == sp && s16.pc == 16);
    let s17 = step(p, stab, s16);
    assert(s17.mem[sp as int] == w16(c1 + c2) && s17.pc == 17);
    assert(run_n(p, stab, s0, 17) == s17) by {
        assert(run_n(p, stab, s0, 17) == run_n(p, stab, s1, 16));
        assert(run_n(p, stab, s1, 16) == run_n(p, stab, s2, 15));
        assert(run_n(p, stab, s2, 15) == run_n(p, stab, s3, 14));
        assert(run_n(p, stab, s3, 14) == run_n(p, stab, s4, 13));
        assert(run_n(p, stab, s4, 13) == run_n(p, stab, s5, 12));
        assert(run_n(p, stab, s5, 12) == run_n(p, stab, s6, 11));
        assert(run_n(p, stab, s6, 11) == run_n(p, stab, s7, 10));
        assert(run_n(p, stab, s7, 10) == run_n(p, stab, s8, 9));
        assert(run_n(p, stab, s8, 9) == run_n(p, stab, s9, 8));
        assert(run_n(p, stab, s9, 8) == run_n(p, stab, s10, 7));
        assert(run_n(p, stab, s10, 7) == run_n(p, stab, s11, 6));
        assert(run_n(p, stab, s11, 6) == run_n(p, stab, s12, 5));
        assert(run_n(p, stab, s12, 5) == run_n(p, stab, s13, 4));
        assert(run_n(p, stab, s13, 4) == run_n(p, stab, s14, 3));
        assert(run_n(p, stab, s14, 3) == run_n(p, stab, s15, 2));
        assert(run_n(p, stab, s15, 2) == run_n(p, stab, s16, 1));
        assert(run_n(p, stab, s16, 1) == run_n(p, stab, s17, 0));
    }
}

/// A segment with a base register is none of the specially addressed
/// segments.
proof fn lemma_indirect_seg_distinct(seg: Seq<char>)
    requires
        mem_seg_sym(seg) matches Option::Some(_),
    ensures
        seg != "constant"@,
        seg != "pointer"@,
        seg != "temp"@,
        seg != "static"@,
{
    reveal_strlit("local");
    reveal_strlit("argument");
    reveal_strlit("this");
    reveal_strlit("that");
    reveal_strlit("constant");
    reveal_strlit("pointer");
    reveal_strlit("temp");
    reveal_strlit("static");
    assert(seg == "local"@ || seg == "argument"@ || seg == "this"@ || seg == "that"@);
    assert("local"@.len() == 5 && "constant"@.len() == 8 && "pointer"@.len() == 7 && "temp"@.len()
        == 4 && "static"@.len() == 6 && "argument"@.len() == 8 && "this"@.len() == 4
        && "that"@.len() == 4);
    if seg == "argument"@ {
        assert(seg != "constant"@) by {
            if seg == "constant"@ {
                assert("argument"@[0] == "constant"@[0]);
            }
        }
    }
    if seg == "this"@ {
        assert(seg != "temp"@) by {
            if seg == "temp"@ {
                assert("this"@[1] == "temp"@[1]);
            }
        }
    }
    if seg == "that"@ {
        assert(seg != "temp"@) by {
            if seg == "temp"@ {
                assert("that"@[1] == "temp"@[1]);
            }
        }
    }
}

/// Pushing from an indirectly addressed segment and immediately popping
/// back to the same place restores the stack height and leaves the
/// value standing at its destination address; only the scratch register
/// and the transfer cell are touched besides.
pub proof fn lemma_push_pop_indirect(
    seg: Seq<char>,
    idx: u16,
    sname: Seq<char>,
    stab: Map<Seq<char>, u16>,
    s0: Mach,
    sp: u16,
    breg: u16,
    b: u16,
)
    requires
        regs_resolved(stab),
        mem_seg_sym(seg) matches Option::Some(bs) && stab[bs] == breg,
        1 <= breg <= 14,
        s0.pc == 0,
        16 <= sp <= 0xfffe,
        s0.mem[0] == sp,
        s0.mem[breg as int] == b,
        b + idx <= 0xffff,
        16 <= b + idx,
    ensures
        push_seq(seg, idx, sname) matches Option::Some(pu) && pop_seq(seg, idx, sname)
            matches Option::Some(po) && {
            let s = run_n(pu + po, stab, s0, 21);
            &&& s.pc == 21
            &&& s.mem[0] == sp
            &&& s.mem[b as int + idx] == s0.mem[b as int + idx]
            &&& s.mem[15] == b + idx
            &&& forall|k: int|
                k != 0 && k != 15 && k != sp as int && k != b as int + idx ==> s.mem[k]
                    == s0.mem[k]
        },
{
    lemma_indirect_seg_distinct(seg);
    let bs = mem_seg_sym(seg)->Some_0;
    let addr = (b + idx) as u16;
    let v = s0.mem[addr as int];
    let pu = push_seq(seg, idx, sname)->Some_0;
    let po = pop_seq(seg, idx, sname)->Some_0;
    let p = pu + po;
    assert(pu.len() == 9 && po.len() == 12);
    let s1 = step(p, stab, s0);
    assert(s1.a == breg && s1.pc == 1);
    let s2 = step(p, stab, s1);
    assert(s2.d == b && s2.pc == 2);
    let s3 = step(p, stab, s2);
    assert(s3.a == idx && s3.pc == 3);
    let s4 = step(p, stab, s3);
    assert(s4.a == addr && s4.pc == 4);
    let s5 = step(p, stab, s4);
    assert(s5.d == v && s5.pc == 5);
    let s6 = step(p, stab, s5);
    assert(s6.a == 0 && s6.pc == 6);
    let s7 = step(p, stab, s6);
    assert(s7.mem[0] == sp + 1 && s7.a == sp + 1 && s7.pc == 7);
    let s8 = step(p, stab, s7);
    assert(s8.a == sp && s8.pc == 8);
    let s9 = step(p, stab, s8);
    assert(s9.mem[sp as int] == v && s9.pc == 9);
    let s10 = step(p, stab, s9);
    assert(s10.a == breg && s10.pc == 10);
    let s11 = step(p, stab, s10);
    assert(s11.d == b && s11.pc == 11);
    let s12 = step(p, stab, s11);
    assert(s12.a == idx && s12.pc == 12);
    let s13 = step(p, stab, s12);
    assert(s13.d == addr && s13.pc == 13);
    let s14 = step(p, stab, s13);
    assert(s14.a == 15 && s14.pc == 14);
    let s15 = step(p, stab, s14);
    assert(s15.mem[15] == addr && s15.pc == 15);
    let s16 = step(p, stab, s15);
    assert(s16.a == 0 && s16.pc == 16);
    let s17 = step(p, stab, s16);
    assert(s17.mem[0] == sp && s17.a == sp && s17.pc == 17);
    let s18 = step(p, stab, s17);
    assert(s18.d == v && s18.pc == 18);
    let s19 = step(p, stab, s18);
    assert(s19.a == 15 && s19.pc == 19);
    let s20 = step(p, stab, s19);
    assert(s20.a == addr && s20.pc == 20);
    let s21 = step(p, stab, s20);
    assert(s21.mem[addr as int] == v && s21.pc == 21);
    assert(run_n(p, stab, s0, 21) == s21) by {
        assert(run_n(p, stab, s0, 21) == run_n(p, stab, s1, 20));
        assert(run_n(p, stab, s1, 20) == run_n(p, stab, s2, 19));
        assert(run_n(p, stab, s2, 19) == run_n(p, stab, s3, 18));
        assert(run_n(p, stab, s3, 18) == run_n(p, stab, s4, 17));
        assert(run_n(p, stab, s4, 17) == run_n(p, stab, s5, 16));
        assert(run_n(p, stab, s5, 16) == run_n(p, stab, s6, 15));
        assert(run_n(p, stab, s6, 15) == run_n(p, stab, s7, 14));
        assert(run_n(p, stab, s7, 14) == run_n(p, stab, s8, 13));
        assert(run_n(p, stab, s8, 13) == run_n(p, stab, s9, 12));
        assert(run_n(p, stab, s9, 12) == run_n(p, stab, s10, 11));
        assert(run_n(p, stab, s10, 11) == run_n(p, stab, s11, 10));
        assert(run_n(p, stab, s11, 10) == run_n(p, stab, s12, 9));
        assert(run_n(p, stab, s12, 9) == run_n(p, stab, s13, 8));
        assert(run_n(p, stab, s13, 8) == run_n(p, stab, s14, 7));
        assert(run_n(p, stab, s14, 7) == run_n(p, stab, s15, 6));
        assert(run_n(p, stab, s15, 6) == run_n(p, stab, s16, 5));
        assert(run_n(p, stab, s16, 5) == run_n(p, stab, s17, 4));
        assert(run_n(p, stab, s17, 4) == run_n(p, stab, s18, 3));
        assert(run_n(p, stab, s18, 3) == run_n(p, stab, s19, 2));
        assert(run_n(p, stab, s19, 2) == run_n(p, stab, s20, 1));
        assert(run_n(p, stab, s20, 1) == run_n(p, stab, s21, 0));
    }
}

/// One round of a function entry's local-zeroing loop, from the loop
/// head with `d` locals still to zero: the loop zeroes exactly those
/// cells, advances the stack pointer past them, and falls through.
proof fn lemma_zero_loop(
    f: Seq<char>,
    n: u16,
    stab: Map<Seq<char>, u16>,
    s: Mach,
    d: u16,
    sp: u16,
)
    requires
        regs_resolved(stab),
        stab[rep_label(f)] == 3,
        1 <= n < 0x8000,
        1 <= d <= n,
        s.pc == 3,
        s.d == d,
        16 <= sp,
        sp + d <= 0xffff,
        s.mem[0] == sp,
    ensures
        run_n(function_seq(f, n), stab, s, 7 * d as nat).pc == 10,
        run_n(function_seq(f, n), stab, s, 7 * d as nat).mem[0] == sp + d,
        forall|k: int|
            sp <= k < sp + d ==> #[trigger] run_n(function_seq(f, n), stab, s, 7 * d as nat).mem[k] == 0,
        forall|k: int|
            k != 0 && !(sp <= k < sp + d) ==> run_n(function_seq(f, n), stab, s, 7 * d as nat).mem[k]
                == s.mem[k],
    decreases d,
{
    let p = function_seq(f, n);
    let s4 = step(p, stab, s);
    assert(s4.pc == 4);
    let s5 = step(p, stab, s4);
    assert(s5.a == 0 && s5.pc == 5);
    let s6 = step(p, stab, s5);
    assert(s6.mem[0] == sp + 1 && s6.a == sp + 1 && s6.pc == 6);
    let s7 = step(p, stab, s6);
    assert(s7.a == sp && s7.pc == 7);
    let s8 = step(p, stab, s7);
    assert(s8.mem[sp as int] == 0 && s8.pc == 8);
    let s9 = step(p, stab, s8);
    assert(s9.a == 3 && s9.pc == 9);
    let s10 = step(p, stab, s9);
    assert(s10.d == d - 1);
    assert(s10.pc == if d > 1 {
        3int
    } else {
        10int
    });
    assert(run_n(p, stab, s, 7) == s10) by {
        assert(run_n(p, stab, s, 7) == run_n(p, stab, s4, 6));
        assert(run_n(p, stab, s4, 6) == run_n(p, stab, s5, 5));
        assert(run_n(p, stab, s5, 5) == run_n(p, stab, s6, 4));
        assert(run_n(p, stab, s6, 4) == run_n(p, stab, s7, 3));
        assert(run_n(p, stab, s7, 3) == run_n(p, stab, s8, 2));
        assert(run_n(p, stab, s8, 2) == run_n(p, stab, s9, 1));
        assert(run_n(p, stab, s9, 1) == run_n(p, stab, s10, 0));
    }
    if d > 1 {
        lemma_zero_loop(f, n, stab, s10, (d - 1) as u16, (sp + 1) as u16);
        crate::machine::lemma_run_n_add(p, stab, s, 7, (7 * (d - 1)) as nat);
        assert(7 * d as nat == 7 + 7 * ((d - 1) as nat));
        let e = run_n(p, stab, s, 7 * d as nat);
        assert(e == run_n(p, stab, s10, 7 * ((d - 1) as u16) as nat));
        assert forall|k: int| k != 0 && !(sp <= k < sp + d) implies e.mem[k] == s.mem[k] by {
            assert(e.mem[k] == s10.mem[k]);
            assert(s10.mem[k] == s.mem[k]);
        }
    } else {
        assert(run_n(p, stab, s, 7 * d as nat) == s10);
    }
}

/// A function entry with a positive local count pushes exactly that many
/// zero-valued words: the stack pointer advances by the local count, the
/// new cells all hold zero, and nothing else in memory changes.
pub proof fn lemma_function_locals(
    f: Seq<char>,
    n: u16,
    stab: Map<Seq<char>, u16>,
    s0: Mach,
    sp: u16,
)
    requires
        regs_resolved(stab),
        stab[rep_label(f)] == 3,
        1 <= n < 0x8000,
        s0.pc == 0,
        16 <= sp,
        sp + n <= 0xffff,
        s0.mem[0] == sp,
    ensures
        run_n(function_seq(f, n), stab, s0, 3 + 7 * n as nat).pc == 10,
        run_n(function_seq(f, n), stab, s0, 3 + 7 * n as nat).mem[0] == sp + n,
        forall|k: int|
            sp <= k < sp + n ==> #[trigger] run_n(function_seq(f, n), stab, s0, 3 + 7 * n as nat).mem[k] == 0,
        forall|k: int|
            k != 0 && !(sp <= k < sp + n) ==> run_n(function_seq(f, n), stab, s0, 3 + 7 * n as nat)
                .mem[k] == s0.mem[k],
{
    let p = function_seq(f, n);
    let s1 = step(p, stab, s0);
    assert(s1.pc == 1);
    let s2 = step(p, stab, s1);
    assert(s2.a == n && s2.pc == 2);
    let s3 = step(p, stab, s2);
    assert(s3.d == n && s3.pc == 3);
    assert(run_n(p, stab, s0, 3) == s3) by {
        assert(run_n(p, stab, s0, 3) == run_n(p, stab, s1, 2));
        assert(run_n(p, stab, s1, 2) == run_n(p, stab, s2, 1));
        assert(run_n(p, stab, s2, 1) == run_n(p, stab, s3, 0));
    }
    lemma_zero_loop(f, n, stab, s3, n, sp);
    crate::machine::lemma_run_n_add(p, stab, s0, 3, 7 * n as nat);
}

/// The bootstrap prologue sets the stack pointer to the fixed base stack
/// address, before anything else runs: after its four instructions the
/// stack-pointer cell holds 256 and no other memory word has changed.
pub proof fn lemma_bootstrap_sets_sp(stab: Map<Seq<char>, u16>, s0: Mach)
    requires
        regs_resolved(stab),
        s0.pc == 0,
    ensures
        run_n(bootstrap_prefix_seq(), stab, s0, 4).mem[0] == 256,
        run_n(bootstrap_prefix_seq(), stab, s0, 4).pc == 4,
        forall|k: int| k != 0 ==> run_n(bootstrap_prefix_seq(), stab, s0, 4).mem[k] == s0.mem[k],
{
    let p = bootstrap_prefix_seq();
    let s1 = step(p, stab, s0);
    assert(s1.a == 256 && s1.pc == 1);
    let s2 = step(p, stab, s1);
    assert(s2.d == 256 && s2.pc == 2);
    let s3 = step(p, stab, s2);
    assert(s3.a == 0 && s3.pc == 3);
    let s4 = step(p, stab, s3);
    assert(s4.mem[0] == 256 && s4.pc == 4);
    assert(run_n(p, stab, s0, 4) == s4) by {
        assert(run_n(p, stab, s0, 4) == run_n(p, stab, s1, 3));
        assert(run_n(p, stab, s1, 3) == run_n(p, stab, s2, 2));
        assert(run_n(p, stab, s2, 2) == run_n(p, stab, s3, 1));
        assert(run_n(p, stab, s3, 1) == run_n(p, stab, s4, 0));
    }
}

/// Applied to two equal words, `eq` leaves the all-bits-set true
/// sentinel on top of the stack; applied to two unequal words, zero.
pub proof fn lemma_eq_sentinel(
    jc: nat,
    stab: Map<Seq<char>, u16>,
    s0: Mach,
    x: u16,
    y: u16,
    sp: u16,
)
    requires
        regs_resolved(stab),
        stab[jmp_false_label(jc)] == 11,
        s0.pc == 0,
        18 <= sp,
        s0.mem[0] == sp,
        s0.mem[sp as int - 1] == y,
        s0.mem[sp as int - 2] == x,
    ensures
        run_n(cmp_seq(Jump::Jeq, jc), stab, s0, 17).mem[sp as int - 2] == (if x == y {
            0xffff as u16
        } else {
            0 as u16
        }),
        run_n(cmp_seq(Jump::Jeq, jc), stab, s0, 17).mem[0] == sp - 1,
{
    lemma_cmp_op(Jump::Jeq, jc, stab, s0, x, y, sp);
    assert(jump_taken(Jump::Jeq, w16(x + 0x10000 - y)) == (x == y)) by {
        if x == y {
            assert(w16(x + 0x10000 - y) == 0);
        } else {
            assert(w16(x + 0x10000 - y) != 0);
        }
    }
}


/// A call followed, inside the callee, by an immediate return: after the
/// pair runs, the stack pointer equals the callee's argument base plus
/// one, and all four caller-saved frame registers hold their pre-call
/// values again; control stands at the call's return label.
pub proof fn lemma_call_return(
    f: Seq<char>,
    nargs: u16,
    jc: nat,
    stab: Map<Seq<char>, u16>,
    s0: Mach,
    sp: u16,
    lcl0: u16,
    arg0: u16,
    this0: u16,
    that0: u16,
)
    requires
        regs_resolved(stab),
        stab[f] == 43,
        stab[ret_label(f, jc)] == 42,
        s0.pc == 0,
        nargs + 16 <= sp,
        sp + 5 <= 0xffff,
        s0.mem[0] == sp,
        s0.mem[1] == lcl0,
        s0.mem[2] == arg0,
        s0.mem[3] == this0,
        s0.mem[4] == that0,
    ensures
        ({
            let e = run_n(
                call_seq(f, nargs, jc) + seq![HInstr::Mark(f)] + return_seq(),
                stab,
                s0,
                85,
            );
            &&& e.pc == 42
            &&& e.mem[0] == sp - nargs + 1
            &&& e.mem[1] == lcl0
            &&& e.mem[2] == arg0
            &&& e.mem[3] == this0
            &&& e.mem[4] == that0
        }),
{
    let p = call_seq(f, nargs, jc) + seq![HInstr::Mark(f)] + return_seq();
    assert(call_seq(f, nargs, jc).len() == 43 && return_seq().len() == 42);
    let s1 = step(p, stab, s0);
    assert(s1.a == 42 && s1.pc == 1);
    let s2 = step(p, stab, s1);
    assert(s2.d == 42 && s2.pc == 2);
    let s3 = step(p, stab, s2);
    assert(s3.a == 0 && s3.pc == 3);
    let s4 = step(p, stab, s3);
    assert(s4.mem[0] == sp + 1 && s4.a == sp + 1 && s4.pc == 4);
    let s5 = step(p, stab, s4);
    assert(s5.a == sp && s5.pc == 5);
    let s6 = step(p, stab, s5);
    assert(s6.mem[sp as int] == 42 && s6.pc == 6);
    let s7 = step(p, stab, s6);
    assert(s7.a == 1 && s7.pc == 7);
    let s8 = step(p, stab, s7);
    assert(s8.d == lcl0 && s8.pc == 8);
    let s9 = step(p, stab, s8);
    assert(s9.a == 0 && s9.pc == 9);
    let s10 = step(p, stab, s9);
    assert(s10.mem[0] == sp + 2 && s10.a == sp + 2 && s10.pc == 10);
    let s11 = step(p, stab, s10);
    assert(s11.a == sp + 1 && s11.pc == 11);
    let s12 = step(p, stab, s11);
    assert(s12.mem[sp as int + 1] == lcl0 && s12.pc == 12);
    let s13 = step(p, stab, s12);
    assert(s13.a == 2 && s13.pc == 13);
    let s14 = step(p, stab, s13);
    assert(s14.d == arg0 && s14.pc == 14);
    let s15 = step(p, stab, s14);
    assert(s15.a == 0 && s15.pc == 15);
    let s16 = step(p, stab, s15);
    assert(s16.mem[0] == sp + 3 && s16.a == sp + 3 && s16.pc == 16);
    let s17 = step(p, stab, s16);
    assert(s17.a == sp + 2 && s17.pc == 17);
    let s18 = step(p, stab, s17);
    assert(s18.mem[sp as int + 2] == arg0 && s18.pc == 18);
    let s19 = step(p, stab, s18);
    assert(s19.a == 3 && s19.pc == 19);
    let s20 = step(p, stab, s19);
    assert(s20.d == this0 && s20.pc == 20);
    let s21 = step(p, stab, s20);
    assert(s21.a == 0 && s21.pc == 21);
    let s22 = step(p, stab, s21);
    assert(s22.mem[0] == sp + 4 && s22.a == sp + 4 && s22.pc == 22);
    let s23 = step(p, stab, s22);
    assert(s23.a == sp + 3 && s23.pc == 23);
    let s24 = step(p, stab, s23);
    assert(s24.mem[sp as int + 3] == this0 && s24.pc == 24);
    let s25 = step(p, stab, s24);
    assert(s25.a == 4 && s25.pc == 25);
    let s26 = step(p, stab, s25);
    assert(s26.d == that0 && s26.pc == 26);
    let s27 = step(p, stab, s26);
    assert(s27.a == 0 && s27.pc == 27);
    let s28 = step(p, stab, s27);
    assert(s28.mem[0] == sp + 5 && s28.a == sp + 5 && s28.pc == 28);
    let s29 = step(p, stab, s28);
    assert(s29.a == sp + 4 && s29.pc == 29);
    let s30 = step(p, stab, s29);
    assert(s30.mem[sp as int + 4] == that0 && s30.pc == 30);
    let s31 = step(p, stab, s30);
    assert(s31.a == 0 && s31.pc == 31);
    let s32 = step(p, stab, s31);
    assert(s32.d == sp + 5 && s32.pc == 32);
    let s33 = step(p, stab, s32);
    assert(s33.a == 1 && s33.pc == 33);
    let s34 = step(p, stab, s33);
    assert(s34.mem[1] == sp + 5 && s34.pc == 34);
    let s35 = step(p, stab, s34);
    assert(s35.a == 5 && s35.pc == 35);
    let s36 = step(p, stab, s35);
    assert(s36.d == sp && s36.pc == 36);
    let s37 = step(p, stab, s36);
    assert(s37.a == nargs && s37.pc == 37);
    let s38 = step(p, stab, s37);
    assert(s38.d == sp - nargs && s38.pc == 38);
    let s39 = step(p, stab, s38);
    assert(s39.a == 2 && s39.pc == 39);
    let s40 = step(p, stab, s39);
    assert(s40.mem[2] == sp - nargs && s40.pc == 40);
    let s41 = step(p, stab, s40);
    assert(s41.a == 43 && s41.pc == 41);
    let s42 = step(p, stab, s41);
    assert(s42.pc == 43);
    let s43 = step(p, stab, s42);
    assert(s43.pc == 44);
    let s44 = step(p, stab, s43);
    assert(s44.a == 1 && s44.pc == 45);
    let s45 = step(p, stab, s44);
    assert(s45.d == sp + 5 && s45.pc == 46);
    let s46 = step(p, stab, s45);
    assert(s46.a == 13 && s46.pc == 47);
    let s47 = step(p, stab, s46);
    assert(s47.mem[13] == sp + 5 && s47.pc == 48);
    let s48 = step(p, stab, s47);
    assert(s48.a == 5 && s48.pc == 49);
    let s49 = step(p, stab, s48);
    assert(s49.a == sp && s49.pc == 50);
    let s50 = step(p, stab, s49);
    assert(s50.d == 42 && s50.pc == 51);
    let s51 = step(p, stab, s50);
    assert(s51.a == 14 && s51.pc == 52);
    let s52 = step(p, stab, s51);
    assert(s52.mem[14] == 42 && s52.pc == 53);
    let s53 = step(p, stab, s52);
    assert(s53.a == 0 && s53.pc == 54);
    let s54 = step(p, stab, s53);
    assert(s54.mem[0] == sp + 4 && s54.a == sp + 4 && s54.pc == 55);
    let s55 = step(p, stab, s54);
    assert(s55.d == that0 && s55.pc == 56);
    let s56 = step(p, stab, s55);
    assert(s56.a == 2 && s56.pc == 57);
    let s57 = step(p, stab, s56);
    assert(s57.a == sp - nargs && s57.pc == 58);
    let s58 = step(p, stab, s57);
    assert(s58.mem[sp as int - nargs] == that0 && s58.pc == 59);
    let s59 = step(p, stab, s58);
    assert(s59.a == 2 && s59.pc == 60);
    let s60 = step(p, stab, s59);
    assert(s60.d == sp - nargs && s60.pc == 61);
    let s61 = step(p, stab, s60);
    assert(s61.a == 0 && s61.pc == 62);
    let s62 = step(p, stab, s61);
    assert(s62.mem[0] == sp - nargs + 1 && s62.pc == 63);
    let s63 = step(p, stab, s62);
    assert(s63.a == 13 && s63.pc == 64);
    let s64 = step(p, stab, s63);
    assert(s64.mem[13] == sp + 4 && s64.a == sp + 4 && s64.pc == 65);
    let s65 = step(p, stab, s64);
    assert(s65.d == that0 && s65.pc == 66);
    let s66 = step(p, stab, s65);
    assert(s66.a == 4 && s66.pc == 67);
    let s67 = step(p, stab, s66);
    assert(s67.mem[4] == that0 && s67.pc == 68);
    let s68 = step(p, stab, s67);
    assert(s68.a == 13 && s68.pc == 69);
    let s69 = step(p, stab, s68);
    assert(s69.mem[13] == sp + 3 && s69.a == sp + 3 && s69.pc == 70);
    let s70 = step(p, stab, s69);
    assert(s70.d == this0 && s70.pc == 71);
    let s71 = step(p, stab, s70);
    assert(s71.a == 3 && s71.pc == 72);
    let s72 = step(p, stab, s71);
    assert(s72.mem[3] == this0 && s72.pc == 73);
    let s73 = step(p, stab, s72);
    assert(s73.a == 13 && s73.pc == 74);
    let s74 = step(p, stab, s73);
    assert(s74.mem[13] == sp + 2 && s74.a == sp + 2 && s74.pc == 75);
    let s75 = step(p, stab, s74);
    assert(s75.d == arg0 && s75.pc == 76);
    let s76 = step(p, stab, s75);
    assert(s76.a == 2 && s76.pc == 77);
    let s77 = step(p, stab, s76);
    assert(s77.mem[2] == arg0 && s77.pc == 78);
    let s78 = step(p, stab, s77);
    assert(s78.a == 13 && s78.pc == 79);
    let s79 = step(p, stab, s78);
    assert(s79.mem[13] == sp + 1 && s79.a == sp + 1 && s79.pc == 80);
    let s80 = step(p, stab, s79);
    assert(s80.d == lcl0 && s80.pc == 81);
    let s81 = step(p, stab, s80);
    assert(s81.a == 1 && s81.pc == 82);
    let s82 = step(p, stab, s81);
    assert(s82.mem[1] == lcl0 && s82.pc == 83);
    let s83 = step(p, stab, s82);
    assert(s83.a == 14 && s83.pc == 84);
    let s84 = step(p, stab, s83);
    assert(s84.a == 42 && s84.pc == 85);
    let s85 = step(p, stab, s84);
    assert(s85.pc == 42);
    assert(run_n(p, stab, s0, 85) == s85) by {
        assert(run_n(p, stab, s0, 85) == run_n(p, stab, s1, 84));
        assert(run_n(p, stab, s1, 84) == run_n(p, stab, s2, 83));
        assert(run_n(p, stab, s2, 83) == run_n(p, stab, s3, 82));
        assert(run_n(p, stab, s3, 82) == run_n(p, stab, s4, 81));
        assert(run_n(p, stab, s4, 81) == run_n(p, stab, s5, 80));
        assert(run_n(p, stab, s5, 80) == run_n(p, stab, s6, 79));
        assert(run_n(p, stab, s6, 79) == run_n(p, stab, s7, 78));
        assert(run_n(p, stab, s7, 78) == run_n(p, stab, s8, 77));
        assert(run_n(p, stab, s8, 77) == run_n(p, stab, s9, 76));
        assert(run_n(p, stab, s9, 76) == run_n(p, stab, s10, 75));
        assert(run_n(p, stab, s10, 75) == run_n(p, stab, s11, 74));
        assert(run_n(p, stab, s11, 74) == run_n(p, stab, s12, 73));
        assert(run_n(p, stab, s12, 73) == run_n(p, stab, s13, 72));
        assert(run_n(p, stab, s13, 72) == run_n(p, stab, s14, 71));
        assert(run_n(p, stab, s14, 71) == run_n(p, stab, s15, 70));
        assert(run_n(p, stab, s15, 70) == run_n(p, stab, s16, 69));
        assert(run_n(p, stab, s16, 69) == run_n(p, stab, s17, 68));
        assert(run_n(p, stab, s17, 68) == run_n(p, stab, s18, 67));
        assert(run_n(p, stab, s18, 67) == run_n(p, stab, s19, 66));
        assert(run_n(p, stab, s19, 66) == run_n(p, stab, s20, 65));
        assert(run_n(p, stab, s20, 65) == run_n(p, stab, s21, 64));
        assert(run_n(p, stab, s21, 64) == run_n(p, stab, s22, 63));
        assert(run_n(p, stab, s22, 63) == run_n(p, stab, s23, 62));
        assert(run_n(p, stab, s23, 62) == run_n(p, stab, s24, 61));
        assert(run_n(p, stab, s24, 61) == run_n(p, stab, s25, 60));
        assert(run_n(p, stab, s25, 60) == run_n(p, stab, s26, 59));
        assert(run_n(p, stab, s26, 59) == run_n(p, stab, s27, 58));
        assert(run_n(p, stab, s27, 58) == run_n(p, stab, s28, 57));
        assert(run_n(p, stab, s28, 57) == run_n(p, stab, s29, 56));
        assert(run_n(p, stab, s29, 56) == run_n(p, stab, s30, 55));
        assert(run_n(p, stab, s30, 55) == run_n(p, stab, s31, 54));
        assert(run_n(p, stab, s31, 54) == run_n(p, stab, s32, 53));
        assert(run_n(p, stab, s32, 53) == run_n(p, stab, s33, 52));
        assert(run_n(p, stab, s33, 52) == run_n(p, stab, s34, 51));
        assert(run_n(p, stab, s34, 51) == run_n(p, stab, s35, 50));
        assert(run_n(p, stab, s35, 50) == run_n(p, stab, s36, 49));
        assert(run_n(p, stab, s36, 49) == run_n(p, stab, s37, 48));
        assert(run_n(p, stab, s37, 48) == run_n(p, stab, s38, 47));
        assert(run_n(p, stab, s38, 47) == run_n(p, stab, s39, 46));
        assert(run_n(p, stab, s39, 46) == run_n(p, stab, s40, 45));
        assert(run_n(p, stab, s40, 45) == run_n(p, stab, s41, 44));
        assert(run_n(p, stab, s41, 44) == run_n(p, stab, s42, 43));
        assert(run_n(p, stab, s42, 43) == run_n(p, stab, s43, 42));
        assert(run_n(p, stab, s43, 42) == run_n(p, stab, s44, 41));
        assert(run_n(p, stab, s44, 41) == run_n(p, stab, s45, 40));
        assert(run_n(p, stab, s45, 40) == run_n(p, stab, s46, 39));
        assert(run_n(p, stab, s46, 39) == run_n(p, stab, s47, 38));
        assert(run_n(p, stab, s47, 38) == run_n(p, stab, s48, 37));
        assert(run_n(p, stab, s48, 37) == run_n(p, stab, s49, 36));
        assert(run_n(p, stab, s49, 36) == run_n(p, stab, s50, 35));
        assert(run_n(p, stab, s50, 35) == run_n(p, stab, s51, 34));
        assert(run_n(p, stab, s51, 34) == run_n(p, stab, s52, 33));
        assert(run_n(p, stab, s52, 33) == run_n(p, stab, s53, 32));
        assert(run_n(p, stab, s53, 32) == run_n(p, stab, s54, 31));
        assert(run_n(p, stab, s54, 31) == run_n(p, stab, s55, 30));
        assert(run_n(p, stab, s55, 30) == run_n(p, stab, s56, 29));
        assert(run_n(p, stab, s56, 29) == run_n(p, stab, s57, 28));
        assert(run_n(p, stab, s57, 28) == run_n(p, stab, s58, 27));
        assert(run_n(p, stab, s58, 27) == run_n(p, stab, s59, 26));
        assert(run_n(p, stab, s59, 26) == run_n(p, stab, s60, 25));
        assert(run_n(p, stab, s60, 25) == run_n(p, stab, s61, 24));
        assert(run_n(p, stab, s61, 24) == run_n(p, stab, s62, 23));
        assert(run_n(p, stab, s62, 23) == run_n(p, stab, s63, 22));
        assert(run_n(p, stab, s63, 22) == run_n(p, stab, s64, 21));
        assert(run_n(p, stab, s64, 21) == run_n(p, stab, s65, 20));
        assert(run_n(p, stab, s65, 20) == run_n(p, stab, s66, 19));
        assert(run_n(p, stab, s66, 19) == run_n(p, stab, s67, 18));
        assert(run_n(p, stab, s67, 18) == run_n(p, stab, s68, 17));
        assert(run_n(p, stab, s68, 17) == run_n(p, stab, s69, 16));
        assert(run_n(p, stab, s69, 16) == run_n(p, stab, s70, 15));
        assert(run_n(p, stab, s70, 15) == run_n(p, stab, s71, 14));
        assert(run_n(p, stab, s71, 14) == run_n(p, stab, s72, 13));
        assert(run_n(p, stab, s72, 13) == run_n(p, stab, s73, 12));
        assert(run_n(p, stab, s73, 12) == run_n(p, stab, s74, 11));
        assert(run_n(p, stab, s74, 11) == run_n(p, stab, s75, 10));
        assert(run_n(p, stab, s75, 10) == run_n(p, stab, s76, 9));
        assert(run_n(p, stab, s76, 9) == run_n(p, stab, s77, 8));
        assert(run_n(p, stab, s77, 8) == run_n(p, stab, s78, 7));
        assert(run_n(p, stab, s78, 7) == run_n(p, stab, s79, 6));
        assert(run_n(p, stab, s79, 6) == run_n(p, stab, s80, 5));
        assert(run_n(p, stab, s80, 5) == run_n(p, stab, s81, 4));
        assert(run_n(p, stab, s81, 4) == run_n(p, stab, s82, 3));
        assert(run_n(p, stab, s82, 3) == run_n(p, stab, s83, 2));
        assert(run_n(p, stab, s83, 2) == run_n(p, stab, s84, 1));
        assert(run_n(p, stab, s84, 1) == run_n(p, stab, s85, 0));
    }
}


/// Pushing a pointer slot and immediately popping it back restores the
/// stack height and the base register's value.
pub proof fn lemma_push_pop_pointer(
    idx: u16,
    stab: Map<Seq<char>, u16>,
    s0: Mach,
    sp: u16,
    v: u16,
)
    requires
        regs_resolved(stab),
        idx == 0 || idx == 1,
        s0.pc == 0,
        16 <= sp <= 0xfffe,
        s0.mem[0] == sp,
        s0.mem[3 + idx] == v,
    ensures
        ({
            let pu = push_seq("pointer"@, idx, Seq::empty());
            let po = pop_seq("pointer"@, idx, Seq::empty());
            &&& pu matches Option::Some(a)
            &&& po matches Option::Some(b)
            &&& run_n(a + b, stab, s0, 16).mem[0] == sp
            &&& run_n(a + b, stab, s0, 16).mem[3 + idx] == v
            &&& run_n(a + b, stab, s0, 16).pc == 16
        }),
{
    reveal_strlit("pointer");
    reveal_strlit("constant");
    assert("pointer"@.len() == 7 && "constant"@.len() == 8);
    let pu = push_seq("pointer"@, idx, Seq::empty())->Some_0;
    let po = pop_seq("pointer"@, idx, Seq::empty())->Some_0;
    let p = pu + po;
    assert(pu.len() == 6 && po.len() == 10);
    let breg: u16 = if idx == 0 { 3 } else { 4 };
    let s1 = step(p, stab, s0);
    assert(s1.a == breg && s1.pc == 1);
    let s2 = step(p, stab, s1);
    assert(s2.d == v && s2.pc == 2);
    let s3 = step(p, stab, s2);
    assert(s3.a == 0 && s3.pc == 3);
    let s4 = step(p, stab, s3);
    assert(s4.mem[0] == sp + 1 && s4.a == sp + 1 && s4.pc == 4);
    let s5 = step(p, stab, s4);
    assert(s5.a == sp && s5.pc == 5);
    let s6 = step(p, stab, s5);
    assert(s6.mem[sp as int] == v && s6.pc == 6);
    let s7 = step(p, stab, s6);
    assert(s7.a == breg && s7.pc == 7);
    let s8 = step(p, stab, s7);
    assert(s8.d == breg && s8.pc == 8);
    let s9 = step(p, stab, s8);
    assert(s9.a == 15 && s9.pc == 9);
    let s10 = step(p, stab, s9);
    assert(s10.mem[15] == breg && s10.pc == 10);
    let s11 = step(p, stab, s10);
    assert(s11.a == 0 && s11.pc == 11);
    let s12 = step(p, stab, s11);
    assert(s12.mem[0] == sp && s12.a == sp && s12.pc == 12);
    let s13 = step(p, stab, s12);
    assert(s13.d == v && s13.pc == 13);
    let s14 = step(p, stab, s13);
    assert(s14.a == 15 && s14.pc == 14);
    let s15 = step(p, stab, s14);
    assert(s15.a == breg && s15.pc == 15);
    let s16 = step(p, stab, s15);
    assert(s16.mem[breg as int] == v && s16.pc == 16);
    assert(run_n(p, stab, s0, 16) == s16) by {
        assert(run_n(p, stab, s0, 16) == run_n(p, stab, s1, 15));
        assert(run_n(p, stab, s1, 15) == run_n(p, stab, s2, 14));
        assert(run_n(p, stab, s2, 14) == run_n(p, stab, s3, 13));
        assert(run_n(p, stab, s3, 13) == run_n(p, stab, s4, 12));
        assert(run_n(p, stab, s4, 12) == run_n(p, stab, s5, 11));
        assert(run_n(p, stab, s5, 11) == run_n(p, stab, s6, 10));
        assert(run_n(p, stab, s6, 10) == run_n(p, stab, s7, 9));
        assert(run_n(p, stab, s7, 9) == run_n(p, stab, s8, 8));
        assert(run_n(p, stab, s8, 8) == run_n(p, stab, s9, 7));
        assert(run_n(p, stab, s9, 7) == run_n(p, stab, s10, 6));
        assert(run_n(p, stab, s10, 6) == run_n(p, stab, s11, 5));
        assert(run_n(p, stab, s11, 5) == run_n(p, stab, s12, 4));
        assert(run_n(p, stab, s12, 4) == run_n(p, stab, s13, 3));
        assert(run_n(p, stab, s13, 3) == run_n(p, stab, s14, 2));
        assert(run_n(p, stab, s14, 2) == run_n(p, stab, s15, 1));
        assert(run_n(p, stab, s15, 1) == run_n(p, stab, s16, 0));
    }
}

/// Pushing a temp slot and immediately popping it back restores the
/// stack height and leaves the value at its fixed address.
pub proof fn lemma_push_pop_temp(
    idx: u16,
    stab: Map<Seq<char>, u16>,
    s0: Mach,
    sp: u16,
    v: u16,
)
    requires
        regs_resolved(stab),
        5 + idx <= 12,
        s0.pc == 0,
        16 <= sp <= 0xfffe,
        s0.mem[0] == sp,
        s0.mem[5 + idx] == v,
    ensures
        ({
            let pu = push_seq("temp"@, idx, Seq::empty());
            let po = pop_seq("temp"@, idx, Seq::empty());
            &&& pu matches Option::Some(a)
            &&& po matches Option::Some(b)
            &&& run_n(a + b, stab, s0, 21).mem[0] == sp
            &&& run_n(a + b, stab, s0, 21).mem[5 + idx] == v
            &&& run_n(a + b, stab, s0, 21).pc == 21
        }),
{
    reveal_strlit("temp");
    reveal_strlit("constant");
    reveal_strlit("pointer");
    assert("temp"@.len() == 4 && "constant"@.len() == 8 && "pointer"@.len() == 7);
    let pu = push_seq("temp"@, idx, Seq::empty())->Some_0;
    let po = pop_seq("temp"@, idx, Seq::empty())->Some_0;
    let p = pu + po;
    assert(pu.len() == 9 && po.len() == 12);
    let s1 = step(p, stab, s0);
    assert(s1.a == 5 && s1.pc == 1);
    let s2 = step(p, stab, s1);
    assert(s2.d == 5 && s2.pc == 2);
    let s3 = step(p, stab, s2);
    assert(s3.a == idx && s3.pc == 3);
    let s4 = step(p, stab, s3);
    assert(s4.a == 5 + idx && s4.pc == 4);
    let s5 = step(p, stab, s4);
    assert(s5.d == v && s5.pc == 5);
    let s6 = step(p, stab, s5);
    assert(s6.a == 0 && s6.pc == 6);
    let s7 = step(p, stab, s6);
    assert(s7.mem[0] == sp + 1 && s7.a == sp + 1 && s7.pc == 7);
    let s8 = step(p, stab, s7);
    assert(s8.a == sp && s8.pc == 8);
    let s9 = step(p, stab, s8);
    assert(s9.mem[sp as int] == v && s9.pc == 9);
    let s10 = step(p, stab, s9);
    assert(s10.a == 5 && s10.pc == 10);
    let s11 = step(p, stab, s10);
    assert(s11.d == 5 && s11.pc == 11);
    let s12 = step(p, stab, s11);
    assert(s12.a == idx && s12.pc == 12);
    let s13 = step(p, stab, s12);
    assert(s13.d == 5 + idx && s13.pc == 13);
    let s14 = step(p, stab, s13);
    assert(s14.a == 15 && s14.pc == 14);
    let s15 = step(p, stab, s14);
    assert(s15.mem[15] == 5 + idx && s15.pc == 15);
    let s16 = step(p, stab, s15);
    assert(s16.a == 0 && s16.pc == 16);
    let s17 = step(p, stab, s16);
    assert(s17.mem[0] == sp && s17.a == sp && s17.pc == 17);
    let s18 = step(p, stab, s17);
    assert(s18.d == v && s18.pc == 18);
    let s19 = step(p, stab, s18);
    assert(s19.a == 15 && s19.pc == 19);
    let s20 = step(p, stab, s19);
    assert(s20.a == 5 + idx && s20.pc == 20);
    let s21 = step(p, stab, s20);
    assert(s21.mem[5 + idx] == v && s21.pc == 21);
    assert(run_n(p, stab, s0, 21) == s21) by {
        assert(run_n(p, stab, s0, 21) == run_n(p, stab, s1, 20));
        assert(run_n(p, stab, s1, 20) == run_n(p, stab, s2, 19));
        assert(run_n(p, stab, s2, 19) == run_n(p, stab, s3, 18));
        assert(run_n(p, stab, s3, 18) == run_n(p, stab, s4, 17));
        assert(run_n(p, stab, s4, 17) == run_n(p, stab, s5, 16));
        assert(run_n(p, stab, s5, 16) == run_n(p, stab, s6, 15));
        assert(run_n(p, stab, s6, 15) == run_n(p, stab, s7, 14));
        assert(run_n(p, stab, s7, 14) == run_n(p, stab, s8, 13));
        assert(run_n(p, stab, s8, 13) == run_n(p, stab, s9, 12));
        assert(run_n(p, stab, s9, 12) == run_n(p, stab, s10, 11));
        assert(run_n(p, stab, s10, 11) == run_n(p, stab, s11, 10));
        assert(run_n(p, stab, s11, 10) == run_n(p, stab, s12, 9));
        assert(run_n(p, stab, s12, 9) == run_n(p, stab, s13, 8));
        assert(run_n(p, stab, s13, 8) == run_n(p, stab, s14, 7));
        assert(run_n(p, stab, s14, 7) == run_n(p, stab, s15, 6));
        assert(run_n(p, stab, s15, 6) == run_n(p, stab, s16, 5));
        assert(run_n(p, stab, s16, 5) == run_n(p, stab, s17, 4));
        assert(run_n(p, stab, s17, 4) == run_n(p, stab, s18, 3));
        assert(run_n(p, stab, s18, 3) == run_n(p, stab, s19, 2));
        assert(run_n(p, stab, s19, 2) == run_n(p, stab, s20, 1));
        assert(run_n(p, stab, s20, 1) == run_n(p, stab, s21, 0));
    }
}

/// Pushing a unit-scoped static variable and immediately popping it
/// back restores the stack height and the variable's value.
pub proof fn lemma_push_pop_static(
    idx: u16,
    sname: Seq<char>,
    stab: Map<Seq<char>, u16>,
    s0: Mach,
    sp: u16,
    va: u16,
    v: u16,
)
    requires
        regs_resolved(stab),
        stab[static_sym(sname, idx)] == va,
        16 <= va,
        s0.pc == 0,
        16 <= sp <= 0xfffe,
        s0.mem[0] == sp,
        s0.mem[va as int] == v,
    ensures
        ({
            let pu = push_seq("static"@, idx, sname);
            let po = pop_seq("static"@, idx, sname);
            &&& pu matches Option::Some(a)
            &&& po matches Option::Some(b)
            &&& run_n(a + b, stab, s0, 16).mem[0] == sp
            &&& run_n(a + b, stab, s0, 16).mem[va as int] == v
            &&& run_n(a + b, stab, s0, 16).pc == 16
        }),
{
    reveal_strlit("static");
    reveal_strlit("constant");
    reveal_strlit("pointer");
    reveal_strlit("temp");
    assert("static"@.len() == 6 && "constant"@.len() == 8 && "pointer"@.len() == 7 && "temp"@.len()
        == 4);
    let pu = push_seq("static"@, idx, sname)->Some_0;
    let po = pop_seq("static"@, idx, sname)->Some_0;
    let p = pu + po;
    assert(pu.len() == 6 && po.len() == 10);
    let s1 = step(p, stab, s0);
    assert(s1.a == va && s1.pc == 1);
    let s2 = step(p, stab, s1);
    assert(s2.d == v && s2.pc == 2);
    let s3 = step(p, stab, s2);
    assert(s3.a == 0 && s3.pc == 3);
    let s4 = step(p, stab, s3);
    assert(s4.mem[0] == sp + 1 && s4.a == sp + 1 && s4.pc == 4);
    let s5 = step(p, stab, s4);
    assert(s5.a == sp && s5.pc == 5);
    let s6 = step(p, stab, s5);
    assert(s6.mem[sp as int] == v && s6.pc == 6);
    let s7 = step(p, stab, s6);
    assert(s7.a == va && s7.pc == 7);
    let s8 = step(p, stab, s7);
    assert(s8.d == va && s8.pc == 8);
    let s9 = step(p, stab, s8);
    assert(s9.a == 15 && s9.pc == 9);
    let s10 = step(p, stab, s9);
    assert(s10.mem[15] == va && s10.pc == 10);
    let s11 = step(p, stab, s10);
    assert(s11.a == 0 && s11.pc == 11);
    let s12 = step(p, stab, s11);
    assert(s12.mem[0] == sp && s12.a == sp && s12.pc == 12);
    let s13 = step(p, stab, s12);
    assert(s13.d == v && s13.pc == 13);
    let s14 = step(p, stab, s13);
    assert(s14.a == 15 && s14.pc == 14);
    let s15 = step(p, stab, s14);
    assert(s15.a == va && s15.pc == 15);
    let s16 = step(p, stab, s15);
    assert(s16.mem[va as int] == v && s16.pc == 16);
    assert(run_n(p, stab, s0, 16) == s16) by {
        assert(run_n(p, stab, s0, 16) == run_n(p, stab, s1, 15));
        assert(run_n(p, stab, s1, 15) == run_n(p, stab, s2, 14));
        assert(run_n(p, stab, s2, 14) == run_n(p, stab, s3, 13));
        assert(run_n(p, stab, s3, 13) == run_n(p, stab, s4, 12));
        assert(run_n(p, stab, s4, 12) == run_n(p, stab, s5, 11));
        assert(run_n(p, stab, s5, 11) == run_n(p, stab, s6, 10));
        assert(run_n(p, stab, s6, 10) == run_n(p, stab, s7, 9));
        assert(run_n(p, stab, s7, 9) == run_n(p, stab, s8, 8));
        assert(run_n(p, stab, s8, 8) == run_n(p, stab, s9, 7));
        assert(run_n(p, stab, s9, 7) == run_n(p, stab, s10, 6));
        assert(run_n(p, stab, s10, 6) == run_n(p, stab, s11, 5));
        assert(run_n(p, stab, s11, 5) == run_n(p, stab, s12, 4));
        assert(run_n(p, stab, s12, 4) == run_n(p, stab, s13, 3));
        assert(run_n(p, stab, s13, 3) == run_n(p, stab, s14, 2));
        assert(run_n(p, stab, s14, 2) == run_n(p, stab, s15, 1));
        assert(run_n(p, stab, s15, 1) == run_n(p, stab, s16, 0));
    }
}

} // verus!
