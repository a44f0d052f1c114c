//! The code generator: maps one command, given the jump-label counter, the
//! current unit's static name and the current function name, to an exact
//! sequence of target instructions.
//!
//! The stack lives in memory behind the `SP` register; `LCL`, `ARG`,
//! `THIS` and `THAT` hold the four segment base addresses, and `R13`-`R15`
//! are scratch registers.  Every fragment below is specified as a sequence
//! of instructions (see [`crate::instr`]); the executable functions return
//! its rendered text.

use vstd::prelude::*;
use vstd::string::*;
use crate::command::{CommandV, ErrKind, ErrV, VMCommand, VmError, err_v};
use crate::instr::{
    Comp, Dest, HInstr, Instr, Jump, render, render_instrs, views_of_instrs,
};
use crate::text::{dec_rep, str_eq, u16_dec};

verus! {

/// A compute instruction without a jump.
pub open spec fn ci(d: Dest, c: Comp) -> HInstr {
    HInstr::C(d, c, Jump::NoJump)
}

/// The base-register symbol of an indirectly addressed segment.
pub open spec fn mem_seg_sym(seg: Seq<char>) -> Option<Seq<char>> {
    if seg == "local"@ {
        Option::Some("LCL"@)
    } else if seg == "argument"@ {
        Option::Some("ARG"@)
    } else if seg == "this"@ {
        Option::Some("THIS"@)
    } else if seg == "that"@ {
        Option::Some("THAT"@)
    } else {
        Option::None
    }
}

/// The freshly minted branch label of a comparison.
pub open spec fn jmp_false_label(jc: nat) -> Seq<char> {
    "JMP_FALSE"@ + dec_rep(jc)
}

/// The freshly minted return label of a call.
pub open spec fn ret_label(fname: Seq<char>, jc: nat) -> Seq<char> {
    fname + "$ret."@ + dec_rep(jc)
}

/// A flow label qualified by the surrounding function's name.
pub open spec fn qual_label(fname: Seq<char>, label: Seq<char>) -> Seq<char> {
    fname + "$"@ + label
}

/// The local-zeroing loop label of a function entry.
pub open spec fn rep_label(fname: Seq<char>) -> Seq<char> {
    fname + "_rep"@
}

/// The unit-scoped variable symbol of a `static` access.
pub open spec fn static_sym(sname: Seq<char>, idx: u16) -> Seq<char> {
    sname + "."@ + dec_rep(idx as nat)
}

/// Push the `D` register onto the stack: advance `SP`, store at the old
/// top.
pub open spec fn stack_push_seq() -> Seq<HInstr> {
    seq![
        HInstr::AtSym("SP"@),
        ci(Dest::RegAM, Comp::MPlusOne),
        ci(Dest::RegA, Comp::AMinusOne),
        ci(Dest::RegM, Comp::ValD),
    ]
}

/// Load the pushed value into `D`, per segment.
pub open spec fn push_head_seq(seg: Seq<char>, idx: u16, sname: Seq<char>) -> Option<Seq<HInstr>> {
    if seg == "constant"@ {
        Option::Some(seq![HInstr::At(idx), ci(Dest::RegD, Comp::ValA)])
    } else if seg == "pointer"@ && idx == 0 {
        Option::Some(seq![HInstr::AtSym("THIS"@), ci(Dest::RegD, Comp::ValM)])
    } else if seg == "pointer"@ && idx == 1 {
        Option::Some(seq![HInstr::AtSym("THAT"@), ci(Dest::RegD, Comp::ValM)])
    } else if seg == "temp"@ {
        Option::Some(
            seq![
                HInstr::At(5),
                ci(Dest::RegD, Comp::ValA),
                HInstr::At(idx),
                ci(Dest::RegA, Comp::DPlusA),
                ci(Dest::RegD, Comp::ValM),
            ],
        )
    } else if seg == "static"@ {
        Option::Some(seq![HInstr::AtSym(static_sym(sname, idx)), ci(Dest::RegD, Comp::ValM)])
    } else {
        match mem_seg_sym(seg) {
            Option::Some(base) => Option::Some(
                seq![
                    HInstr::AtSym(base),
                    ci(Dest::RegD, Comp::ValM),
                    HInstr::At(idx),
                    ci(Dest::RegA, Comp::DPlusA),
                    ci(Dest::RegD, Comp::ValM),
                ],
            ),
            Option::None => Option::None,
        }
    }
}

/// The full instruction sequence of a `push`.
pub open spec fn push_seq(seg: Seq<char>, idx: u16, sname: Seq<char>) -> Option<Seq<HInstr>> {
    match push_head_seq(seg, idx, sname) {
        Option::Some(head) => Option::Some(head + stack_push_seq()),
        Option::None => Option::None,
    }
}

/// Load the destination address of a `pop` into `D`, per segment.  The
/// `constant` segment has no storage address: popping it is refused.
pub open spec fn pop_head_seq(seg: Seq<char>, idx: u16, sname: Seq<char>) -> Option<Seq<HInstr>> {
    if seg == "pointer"@ && idx == 0 {
        Option::Some(seq![HInstr::AtSym("THIS"@), ci(Dest::RegD, Comp::ValA)])
    } else if seg == "pointer"@ && idx == 1 {
        Option::Some(seq![HInstr::AtSym("THAT"@), ci(Dest::RegD, Comp::ValA)])
    } else if seg == "temp"@ {
        Option::Some(
            seq![
                HInstr::At(5),
                ci(Dest::RegD, Comp::ValA),
                HInstr::At(idx),
                ci(Dest::RegD, Comp::DPlusA),
            ],
        )
    } else if seg == "static"@ {
        Option::Some(seq![HInstr::AtSym(static_sym(sname, idx)), ci(Dest::RegD, Comp::ValA)])
    } else {
        match mem_seg_sym(seg) {
            Option::Some(base) => Option::Some(
                seq![
                    HInstr::AtSym(base),
                    ci(Dest::RegD, Comp::ValM),
                    HInstr::At(idx),
                    ci(Dest::RegD, Comp::DPlusA),
                ],
            ),
            Option::None => Option::None,
        }
    }
}

/// Cache the destination address in `R15`, pop the stack into `D`, store
/// through `R15`.  The address is computed before the value is popped.
pub open spec fn pop_tail_seq() -> Seq<HInstr> {
    seq![
        HInstr::AtSym("R15"@),
        ci(Dest::RegM, Comp::ValD),
        HInstr::AtSym("SP"@),
        ci(Dest::RegAM, Comp::MMinusOne),
        ci(Dest::RegD, Comp::ValM),
        HInstr::AtSym("R15"@),
        ci(Dest::RegA, Comp::ValM),
        ci(Dest::RegM, Comp::ValD),
    ]
}

/// The full instruction sequence of a `pop`.
pub open spec fn pop_seq(seg: Seq<char>, idx: u16, sname: Seq<char>) -> Option<Seq<HInstr>> {
    match pop_head_seq(seg, idx, sname) {
        Option::Some(head) => Option::Some(head + pop_tail_seq()),
        Option::None => Option::None,
    }
}

/// The computation of a unary arithmetic mnemonic.
pub open spec fn si_op_comp(comm: Seq<char>) -> Option<Comp> {
    if comm == "neg"@ {
        Option::Some(Comp::NegM)
    } else if comm == "not"@ {
        Option::Some(Comp::NotM)
    } else {
        Option::None
    }
}

/// The computation of a binary arithmetic mnemonic.
pub open spec fn bi_op_comp(comm: Seq<char>) -> Option<Comp> {
    if comm == "add"@ {
        Option::Some(Comp::MPlusD)
    } else if comm == "sub"@ {
        Option::Some(Comp::MMinusD)
    } else if comm == "and"@ {
        Option::Some(Comp::MAndD)
    } else if comm == "or"@ {
        Option::Some(Comp::MOrD)
    } else {
        Option::None
    }
}

/// The jump condition of a comparison mnemonic.
pub open spec fn cmp_op_jump(comm: Seq<char>) -> Option<Jump> {
    if comm == "eq"@ {
        Option::Some(Jump::Jeq)
    } else if comm == "gt"@ {
        Option::Some(Jump::Jgt)
    } else if comm == "lt"@ {
        Option::Some(Jump::Jlt)
    } else {
        Option::None
    }
}

/// Mutate the top stack element in place.
pub open spec fn unary_seq(cm: Comp) -> Seq<HInstr> {
    seq![
        HInstr::AtSym("SP"@),
        ci(Dest::RegAM, Comp::MMinusOne),
        ci(Dest::RegMD, cm),
        HInstr::AtSym("SP"@),
        ci(Dest::RegM, Comp::MPlusOne),
    ]
}

/// Pop the top into `D`, combine with the new top in place.
pub open spec fn binary_seq(cm: Comp) -> Seq<HInstr> {
    seq![
        HInstr::AtSym("SP"@),
        ci(Dest::RegAM, Comp::MMinusOne),
        ci(Dest::RegD, Comp::ValM),
        ci(Dest::RegA, Comp::AMinusOne),
        ci(Dest::RegMD, cm),
    ]
}

/// Compare the two topmost elements: write the all-bits-set true sentinel,
/// branch past the zero overwrite when the ordering predicate holds of
/// `below - top`, and store the sentinel at the new top.
pub open spec fn cmp_seq(j: Jump, jc: nat) -> Seq<HInstr> {
    seq![
        HInstr::AtSym("R15"@),
        ci(Dest::RegM, Comp::MinusOne),
        HInstr::AtSym("SP"@),
        ci(Dest::RegAM, Comp::MMinusOne),
        ci(Dest::RegD, Comp::ValM),
        ci(Dest::RegA, Comp::AMinusOne),
        ci(Dest::RegD, Comp::MMinusD),
        HInstr::AtSym(jmp_false_label(jc)),
        HInstr::C(Dest::NoDest, Comp::ValD, j),
        HInstr::AtSym("R15"@),
        ci(Dest::RegM, Comp::Zero),
        HInstr::Mark(jmp_false_label(jc)),
        HInstr::AtSym("R15"@),
        ci(Dest::RegD, Comp::ValM),
        HInstr::AtSym("SP"@),
        ci(Dest::RegA, Comp::MMinusOne),
        ci(Dest::RegM, Comp::ValD),
    ]
}

/// What an arithmetic mnemonic emits, and the counter after it: only a
/// comparison advances the counter, by exactly one.
pub open spec fn arith_gen(comm: Seq<char>, jc: nat) -> Option<(Seq<HInstr>, nat)> {
    match si_op_comp(comm) {
        Option::Some(cm) => Option::Some((unary_seq(cm), jc)),
        Option::None => match bi_op_comp(comm) {
            Option::Some(cm) => Option::Some((binary_seq(cm), jc)),
            Option::None => match cmp_op_jump(comm) {
                Option::Some(j) => Option::Some((cmp_seq(j, jc), (jc + 1) as nat)),
                Option::None => Option::None,
            },
        },
    }
}

/// A flow label definition, qualified by the current function.
pub open spec fn label_seq(fname: Seq<char>, label: Seq<char>) -> Seq<HInstr> {
    seq![HInstr::Mark(qual_label(fname, label))]
}

/// An unconditional jump to a qualified flow label.
pub open spec fn goto_seq(fname: Seq<char>, label: Seq<char>) -> Seq<HInstr> {
    seq![HInstr::AtSym(qual_label(fname, label)), HInstr::C(Dest::NoDest, Comp::Zero, Jump::Jmp)]
}

/// Pop the top of the stack and jump to the qualified label when it is
/// non-zero.
pub open spec fn if_goto_seq(fname: Seq<char>, label: Seq<char>) -> Seq<HInstr> {
    seq![
        HInstr::AtSym("SP"@),
        ci(Dest::RegAM, Comp::MMinusOne),
        ci(Dest::RegD, Comp::ValM),
        HInstr::AtSym(qual_label(fname, label)),
        HInstr::C(Dest::NoDest, Comp::ValD, Jump::Jne),
    ]
}

/// A function entry: its unqualified global marker, then, when the local
/// count is positive, a loop that pushes that many zero words.
pub open spec fn function_seq(fname: Seq<char>, n_vars: u16) -> Seq<HInstr> {
    if n_vars == 0 {
        seq![HInstr::Mark(fname)]
    } else {
        seq![
            HInstr::Mark(fname),
            HInstr::At(n_vars),
            ci(Dest::RegD, Comp::ValA),
            HInstr::Mark(rep_label(fname)),
            HInstr::AtSym("SP"@),
            ci(Dest::RegAM, Comp::MPlusOne),
            ci(Dest::RegA, Comp::AMinusOne),
            ci(Dest::RegM, Comp::Zero),
            HInstr::AtSym(rep_label(fname)),
            HInstr::C(Dest::RegD, Comp::DMinusOne, Jump::Jgt),
        ]
    }
}

/// A call: push the return address and the four caller-saved bases,
/// recompute `ARG` as `SP - 5 - n_args`, set `LCL` to `SP`, jump to the
/// callee, and define the return label.  The return label consumes one
/// counter value.
pub open spec fn call_seq(fname: Seq<char>, n_args: u16, jc: nat) -> Seq<HInstr> {
    seq![
        HInstr::AtSym(ret_label(fname, jc)),
        ci(Dest::RegD, Comp::ValA),
        HInstr::AtSym("SP"@),
        ci(Dest::RegAM, Comp::MPlusOne),
        ci(Dest::RegA, Comp::AMinusOne),
        ci(Dest::RegM, Comp::ValD),
        HInstr::AtSym("LCL"@),
        ci(Dest::RegD, Comp::ValM),
        HInstr::AtSym("SP"@),
        ci(Dest::RegAM, Comp::MPlusOne),
        ci(Dest::RegA, Comp::AMinusOne),
        ci(Dest::RegM, Comp::ValD),
        HInstr::AtSym("ARG"@),
        ci(Dest::RegD, Comp::ValM),
        HInstr::AtSym("SP"@),
        ci(Dest::RegAM, Comp::MPlusOne),
        ci(Dest::RegA, Comp::AMinusOne),
        ci(Dest::RegM, Comp::ValD),
        HInstr::AtSym("THIS"@),
        ci(Dest::RegD, Comp::ValM),
        HInstr::AtSym("SP"@),
        ci(Dest::RegAM, Comp::MPlusOne),
        ci(Dest::RegA, Comp::AMinusOne),
        ci(Dest::RegM, Comp::ValD),
        HInstr::AtSym("THAT"@),
        ci(Dest::RegD, Comp::ValM),
        HInstr::AtSym("SP"@),
        ci(Dest::RegAM, Comp::MPlusOne),
        ci(Dest::RegA, Comp::AMinusOne),
        ci(Dest::RegM, Comp::ValD),
        HInstr::AtSym("SP"@),
        ci(Dest::RegD, Comp::ValM),
        HInstr::AtSym("LCL"@),
        ci(Dest::RegM, Comp::ValD),
        HInstr::At(5),
        ci(Dest::RegD, Comp::DMinusA),
        HInstr::At(n_args),
        ci(Dest::RegD, Comp::DMinusA),
        HInstr::AtSym("ARG"@),
        ci(Dest::RegM, Comp::ValD),
        HInstr::AtSym(fname),
        HInstr::C(Dest::NoDest, Comp::Zero, Jump::Jmp),
        HInstr::Mark(ret_label(fname, jc)),
    ]
}

/// A return: cache the frame base in `R13` and the return address in
/// `R14`, store the result at the caller's stack top, relocate `SP` to
/// `ARG + 1`, restore the four saved bases from the frame's fixed negative
/// offsets, and jump through the return address.
pub open spec fn return_seq() -> Seq<HInstr> {
    seq![
        HInstr::AtSym("LCL"@),
        ci(Dest::RegD, Comp::ValM),
        HInstr::AtSym("R13"@),
        ci(Dest::RegM, Comp::ValD),
        HInstr::At(5),
        ci(Dest::RegA, Comp::DMinusA),
        ci(Dest::RegD, Comp::ValM),
        HInstr::AtSym("R14"@),
        ci(Dest::RegM, Comp::ValD),
        HInstr::AtSym("SP"@),
        ci(Dest::RegAM, Comp::MMinusOne),
        ci(Dest::RegD, Comp::ValM),
        HInstr::AtSym("ARG"@),
        ci(Dest::RegA, Comp::ValM),
        ci(Dest::RegM, Comp::ValD),
        HInstr::AtSym("ARG"@),
        ci(Dest::RegD, Comp::ValM),
        HInstr::AtSym("SP"@),
        ci(Dest::RegM, Comp::DPlusOne),
        HInstr::AtSym("R13"@),
        ci(Dest::RegAM, Comp::MMinusOne),
        ci(Dest::RegD, Comp::ValM),
        HInstr::AtSym("THAT"@),
        ci(Dest::RegM, Comp::ValD),
        HInstr::AtSym("R13"@),
        ci(Dest::RegAM, Comp::MMinusOne),
        ci(Dest::RegD, Comp::ValM),
        HInstr::AtSym("THIS"@),
        ci(Dest::RegM, Comp::ValD),
        HInstr::AtSym("R13"@),
        ci(Dest::RegAM, Comp::MMinusOne),
        ci(Dest::RegD, Comp::ValM),
        HInstr::AtSym("ARG"@),
        ci(Dest::RegM, Comp::ValD),
        HInstr::AtSym("R13"@),
        ci(Dest::RegAM, Comp::MMinusOne),
        ci(Dest::RegD, Comp::ValM),
        HInstr::AtSym("LCL"@),
        ci(Dest::RegM, Comp::ValD),
        HInstr::AtSym("R14"@),
        ci(Dest::RegA, Comp::ValM),
        HInstr::C(Dest::NoDest, Comp::Zero, Jump::Jmp),
    ]
}

/// What one command emits: the instruction sequence and the counter after
/// it.  Only comparisons and calls advance the counter.
pub open spec fn gen_cmd(cmd: CommandV, jc: nat, sname: Seq<char>, fname: Seq<char>) -> Result<
    (nat, Seq<HInstr>),
    ErrV,
> {
    match cmd {
        CommandV::CArithmetic(s, _) => match arith_gen(s, jc) {
            Option::Some(p) => Ok((p.1, p.0)),
            Option::None => Err(err_v(ErrKind::UnrecognizedOperator, s)),
        },
        CommandV::CPush(seg, idx) => match push_seq(seg, idx, sname) {
            Option::Some(q) => Ok((jc, q)),
            Option::None => Err(err_v(ErrKind::UnrecognizedSegment, seg)),
        },
        CommandV::CPop(seg, idx) => match pop_seq(seg, idx, sname) {
            Option::Some(q) => Ok((jc, q)),
            Option::None => Err(err_v(ErrKind::UnrecognizedSegment, seg)),
        },
        CommandV::CLabel(l, _) => Ok((jc, label_seq(fname, l))),
        CommandV::CGoto(l, _) => Ok((jc, goto_seq(fname, l))),
        CommandV::CIf(l, _) => Ok((jc, if_goto_seq(fname, l))),
        CommandV::CFunction(f, n) => Ok((jc, function_seq(f, n))),
        CommandV::CReturn(_, _) => Ok((jc, return_seq())),
        CommandV::CCall(f, n) => Ok(((jc + 1) as nat, call_seq(f, n, jc))),
    }
}

impl VmError {
    /// An unrecognized-segment failure for the given segment token.
    fn unrecognized_segment(seg: &str) -> (r: VmError)
        ensures
            r@ == err_v(ErrKind::UnrecognizedSegment, seg@),
    {
        VmError { kind: ErrKind::UnrecognizedSegment, token: String::from_str(seg) }
    }

    /// An unrecognized-operator failure for the given mnemonic.
    fn unrecognized_operator(comm: &str) -> (r: VmError)
        ensures
            r@ == err_v(ErrKind::UnrecognizedOperator, comm@),
    {
        VmError { kind: ErrKind::UnrecognizedOperator, token: String::from_str(comm) }
    }
}

/// Looks up the computation of a unary arithmetic mnemonic.
pub fn get_si_op(comm: &str) -> (r: Result<Comp, VmError>)
    ensures
        match r {
            Ok(c) => si_op_comp(comm@) == Option::Some(c),
            Err(e) => si_op_comp(comm@) == Option::<Comp>::None && e@ == err_v(
                ErrKind::UnrecognizedOperator,
                comm@,
            ),
        },
{
    if str_eq(comm, "neg") {
        Ok(Comp::NegM)
    } else if str_eq(comm, "not") {
        Ok(Comp::NotM)
    } else {
        Err(VmError::unrecognized_operator(comm))
    }
}

/// Looks up the computation of a binary arithmetic mnemonic.
pub fn get_bi_op(comm: &str) -> (r: Result<Comp, VmError>)
    ensures
        match r {
            Ok(c) => bi_op_comp(comm@) == Option::Some(c),
            Err(e) => bi_op_comp(comm@) == Option::<Comp>::None && e@ == err_v(
                ErrKind::UnrecognizedOperator,
                comm@,
            ),
        },
{
    if str_eq(comm, "add") {
        Ok(Comp::MPlusD)
    } else if str_eq(comm, "sub") {
        Ok(Comp::MMinusD)
    } else if str_eq(comm, "and") {
        Ok(Comp::MAndD)
    } else if str_eq(comm, "or") {
        Ok(Comp::MOrD)
    } else {
        Err(VmError::unrecognized_operator(comm))
    }
}

/// Looks up the jump condition of a comparison mnemonic.
pub fn get_cmp_op(comm: &str) -> (r: Result<Jump, VmError>)
    ensures
        match r {
            Ok(j) => cmp_op_jump(comm@) == Option::Some(j),
            Err(e) => cmp_op_jump(comm@) == Option::<Jump>::None && e@ == err_v(
                ErrKind::UnrecognizedOperator,
                comm@,
            ),
        },
{
    if str_eq(comm, "eq") {
        Ok(Jump::Jeq)
    } else if str_eq(comm, "gt") {
        Ok(Jump::Jgt)
    } else if str_eq(comm, "lt") {
        Ok(Jump::Jlt)
    } else {
        Err(VmError::unrecognized_operator(comm))
    }
}

/// Builds the fresh branch label of a comparison.
fn jmp_false_string(jc: u64) -> (r: String)
    ensures
        r@ == jmp_false_label(jc as nat),
{
    let mut s = String::from_str("JMP_FALSE");
    let num = crate::text::u64_dec(jc);
    s.append(num.as_str());
    s
}

/// Builds the fresh return label of a call.
fn ret_label_string(fname: &str, jc: u64) -> (r: String)
    ensures
        r@ == ret_label(fname@, jc as nat),
{
    let mut s = String::from_str(fname);
    s.append("$ret.");
    let num = crate::text::u64_dec(jc);
    s.append(num.as_str());
    s
}

/// Builds a flow label qualified by the current function.
fn qual_label_string(fname: &str, label: &str) -> (r: String)
    ensures
        r@ == qual_label(fname@, label@),
{
    let mut s = String::from_str(fname);
    s.append("$");
    s.append(label);
    s
}

/// Builds the local-zeroing loop label of a function entry.
fn rep_label_string(fname: &str) -> (r: String)
    ensures
        r@ == rep_label(fname@),
{
    let mut s = String::from_str(fname);
    s.append("_rep");
    s
}

/// Looks up the base-register symbol of an indirectly addressed segment.
pub fn get_mem_seg(seg: &str) -> (r: Result<&'static str, VmError>)
    ensures
        match r {
            Ok(b) => mem_seg_sym(seg@) == Option::Some(b@),
            Err(e) => mem_seg_sym(seg@) == Option::<Seq<char>>::None && e@ == err_v(
                ErrKind::UnrecognizedSegment,
                seg@,
            ),
        },
{
    if str_eq(seg, "local") {
        Ok("LCL")
    } else if str_eq(seg, "argument") {
        Ok("ARG")
    } else if str_eq(seg, "this") {
        Ok("THIS")
    } else if str_eq(seg, "that") {
        Ok("THAT")
    } else {
        Err(VmError::unrecognized_segment(seg))
    }
}

/// Appends the stack-push tail shared by every `push` and by `call`.
fn emit_stack_push(v: &mut Vec<Instr>)
    ensures
        views_of_instrs(final(v)@) =~= views_of_instrs(old(v)@) + stack_push_seq(),
{
    v.push(Instr::AtSym(String::from_str("SP")));
    v.push(Instr::C(Dest::RegAM, Comp::MPlusOne, Jump::NoJump));
    v.push(Instr::C(Dest::RegA, Comp::AMinusOne, Jump::NoJump));
    v.push(Instr::C(Dest::RegM, Comp::ValD, Jump::NoJump));
}

/// Builds the unit-scoped symbol of a `static` access.
fn static_sym_string(static_name: &str, idx: u16) -> (r: String)
    ensures
        r@ == static_sym(static_name@, idx),
{
    let mut s = String::from_str(static_name);
    s.append(".");
    let num = u16_dec(idx);
    s.append(num.as_str());
    s
}

impl VMCommand {
    /// Emits the instruction text of `push seg idx`.
    pub fn cpush2asm(seg: &str, idx: &u16, static_name: &str) -> (r: Result<String, VmError>)
        ensures
            match r {
                Ok(t) => push_seq(seg@, *idx, static_name@) matches Option::Some(s) && t@ == render(
                    s,
                ),
                Err(e) => push_seq(seg@, *idx, static_name@) == Option::<Seq<HInstr>>::None && e@
                    == err_v(ErrKind::UnrecognizedSegment, seg@),
            },
    {
        let mut v: Vec<Instr> = Vec::new();
        if str_eq(seg, "constant") {
            v.push(Instr::At(*idx));
            v.push(Instr::C(Dest::RegD, Comp::ValA, Jump::NoJump));
        } else if str_eq(seg, "pointer") && *idx == 0 {
            v.push(Instr::AtSym(String::from_str("THIS")));
            v.push(Instr::C(Dest::RegD, Comp::ValM, Jump::NoJump));
        } else if str_eq(seg, "pointer") && *idx == 1 {
            v.push(Instr::AtSym(String::from_str("THAT")));
            v.push(Instr::C(Dest::RegD, Comp::ValM, Jump::NoJump));
        } else if str_eq(seg, "temp") {
            v.push(Instr::At(5));
            v.push(Instr::C(Dest::RegD, Comp::ValA, Jump::NoJump));
            v.push(Instr::At(*idx));
            v.push(Instr::C(Dest::RegA, Comp::DPlusA, Jump::NoJump));
            v.push(Instr::C(Dest::RegD, Comp::ValM, Jump::NoJump));
        } else if str_eq(seg, "static") {
            v.push(Instr::AtSym(static_sym_string(static_name, *idx)));
            v.push(Instr::C(Dest::RegD, Comp::ValM, Jump::NoJump));
        } else {
            let base = match get_mem_seg(seg) {
                Ok(b) => b,
                Err(e) => {
                    return Err(e);
                },
            };
            v.push(Instr::AtSym(String::from_str(base)));
            v.push(Instr::C(Dest::RegD, Comp::ValM, Jump::NoJump));
            v.push(Instr::At(*idx));
            v.push(Instr::C(Dest::RegA, Comp::DPlusA, Jump::NoJump));
            v.push(Instr::C(Dest::RegD, Comp::ValM, Jump::NoJump));
        }
        proof {
            assert(push_head_seq(seg@, *idx, static_name@) matches Option::Some(s)
                && views_of_instrs(v@) =~= s);
        }
        emit_stack_push(&mut v);
        let text = render_instrs(&v);
        proof {
            assert(push_seq(seg@, *idx, static_name@) matches Option::Some(s) && views_of_instrs(
                v@,
            ) =~= s);
        }
        Ok(text)
    }

    /// Emits the instruction text of `pop seg idx`.
    pub fn cpop2asm(seg: &str, idx: &u16, static_name: &str) -> (r: Result<String, VmError>)
        ensures
            match r {
                Ok(t) => pop_seq(seg@, *idx, static_name@) matches Option::Some(s) && t@ == render(
                    s,
                ),
                Err(e) => pop_seq(seg@, *idx, static_name@) == Option::<Seq<HInstr>>::None && e@
                    == err_v(ErrKind::UnrecognizedSegment, seg@),
            },
    {
        let mut v: Vec<Instr> = Vec::new();
        if str_eq(seg, "pointer") && *idx == 0 {
            v.push(Instr::AtSym(String::from_str("THIS")));
            v.push(Instr::C(Dest::RegD, Comp::ValA, Jump::NoJump));
        } else if str_eq(seg, "pointer") && *idx == 1 {
            v.push(Instr::AtSym(String::from_str("THAT")));
            v.push(Instr::C(Dest::RegD, Comp::ValA, Jump::NoJump));
        } else if str_eq(seg, "temp") {
            v.push(Instr::At(5));
            v.push(Instr::C(Dest::RegD, Comp::ValA, Jump::NoJump));
            v.push(Instr::At(*idx));
            v.push(Instr::C(Dest::RegD, Comp::DPlusA, Jump::NoJump));
        } else if str_eq(seg, "static") {
            v.push(Instr::AtSym(static_sym_string(static_name, *idx)));
            v.push(Instr::C(Dest::RegD, Comp::ValA, Jump::NoJump));
        } else {
            let base = match get_mem_seg(seg) {
                Ok(b) => b,
                Err(e) => {
                    return Err(e);
                },
            };
            v.push(Instr::AtSym(String::from_str(base)));
            v.push(Instr::C(Dest::RegD, Comp::ValM, Jump::NoJump));
            v.push(Instr::At(*idx));
            v.push(Instr::C(Dest::RegD, Comp::DPlusA, Jump::NoJump));
        }
        proof {
            assert(pop_head_seq(seg@, *idx, static_name@) matches Option::Some(s)
                && views_of_instrs(v@) =~= s);
        }
        v.push(Instr::AtSym(String::from_str("R15")));
        v.push(Instr::C(Dest::RegM, Comp::ValD, Jump::NoJump));
        v.push(Instr::AtSym(String::from_str("SP")));
        v.push(Instr::C(Dest::RegAM, Comp::MMinusOne, Jump::NoJump));
        v.push(Instr::C(Dest::RegD, Comp::ValM, Jump::NoJump));
        v.push(Instr::AtSym(String::from_str("R15")));
        v.push(Instr::C(Dest::RegA, Comp::ValM, Jump::NoJump));
        v.push(Instr::C(Dest::RegM, Comp::ValD, Jump::NoJump));
        let text = render_instrs(&v);
        proof {
            assert(pop_seq(seg@, *idx, static_name@) matches Option::Some(s) && views_of_instrs(v@)
                =~= s);
        }
        Ok(text)
    }

    /// Emits the instruction text of an arithmetic mnemonic, advancing the
    /// counter exactly when the mnemonic is a comparison.
    pub fn carithmetic2asm(comm: &str, jump_count: u64) -> (r: Result<(u64, String), VmError>)
        requires
            jump_count < u64::MAX,
        ensures
            match r {
                Ok(p) => arith_gen(comm@, jump_count as nat) matches Option::Some(q) && p.1@
                    == render(q.0) && p.0 as nat == q.1,
                Err(e) => arith_gen(comm@, jump_count as nat) == Option::<(Seq<HInstr>, nat)>::None
                    && e@ == err_v(ErrKind::UnrecognizedOperator, comm@),
            },
    {
        let mut v: Vec<Instr> = Vec::new();
        if str_eq(comm, "neg") || str_eq(comm, "not") {
            let cm = match get_si_op(comm) {
                Ok(c) => c,
                Err(e) => {
                    return Err(e);
                },
            };
            v.push(Instr::AtSym(String::from_str("SP")));
            v.push(Instr::C(Dest::RegAM, Comp::MMinusOne, Jump::NoJump));
            v.push(Instr::C(Dest::RegMD, cm, Jump::NoJump));
            v.push(Instr::AtSym(String::from_str("SP")));
            v.push(Instr::C(Dest::RegM, Comp::MPlusOne, Jump::NoJump));
            let text = render_instrs(&v);
            proof {
                assert(views_of_instrs(v@) =~= unary_seq(cm));
            }
            Ok((jump_count, text))
        } else if str_eq(comm, "add") || str_eq(comm, "sub") || str_eq(comm, "and") || str_eq(
            comm,
            "or",
        ) {
            let cm = match get_bi_op(comm) {
                Ok(c) => c,
                Err(e) => {
                    return Err(e);
                },
            };
            v.push(Instr::AtSym(String::from_str("SP")));
            v.push(Instr::C(Dest::RegAM, Comp::MMinusOne, Jump::NoJump));
            v.push(Instr::C(Dest::RegD, Comp::ValM, Jump::NoJump));
            v.push(Instr::C(Dest::RegA, Comp::AMinusOne, Jump::NoJump));
            v.push(Instr::C(Dest::RegMD, cm, Jump::NoJump));
            let text = render_instrs(&v);
            proof {
                assert(views_of_instrs(v@) =~= binary_seq(cm));
            }
            Ok((jump_count, text))
        } else if str_eq(comm, "eq") || str_eq(comm, "gt") || str_eq(comm, "lt") {
            let j = match get_cmp_op(comm) {
                Ok(c) => c,
                Err(e) => {
                    return Err(e);
                },
            };
            let lbl = jmp_false_string(jump_count);
            v.push(Instr::AtSym(String::from_str("R15")));
            v.push(Instr::C(Dest::RegM, Comp::MinusOne, Jump::NoJump));
            v.push(Instr::AtSym(String::from_str("SP")));
            v.push(Instr::C(Dest::RegAM, Comp::MMinusOne, Jump::NoJump));
            v.push(Instr::C(Dest::RegD, Comp::ValM, Jump::NoJump));
            v.push(Instr::C(Dest::RegA, Comp::AMinusOne, Jump::NoJump));
            v.push(Instr::C(Dest::RegD, Comp::MMinusD, Jump::NoJump));
            v.push(Instr::AtSym(lbl.clone()));
            v.push(Instr::C(Dest::NoDest, Comp::ValD, j));
            v.push(Instr::AtSym(String::from_str("R15")));
            v.push(Instr::C(Dest::RegM, Comp::Zero, Jump::NoJump));
            v.push(Instr::Mark(lbl));
            v.push(Instr::AtSym(String::from_str("R15")));
            v.push(Instr::C(Dest::RegD, Comp::ValM, Jump::NoJump));
            v.push(Instr::AtSym(String::from_str("SP")));
            v.push(Instr::C(Dest::RegA, Comp::MMinusOne, Jump::NoJump));
            v.push(Instr::C(Dest::RegM, Comp::ValD, Jump::NoJump));
            let text = render_instrs(&v);
            proof {
                assert(views_of_instrs(v@) =~= cmp_seq(j, jump_count as nat));
            }
            Ok((jump_count + 1, text))
        } else {
            Err(VmError::unrecognized_operator(comm))
        }
    }

    /// Emits the qualified label marker of `label name`.
    pub fn clabel2asm(label: &str, func_name: &str) -> (r: Result<String, VmError>)
        ensures
            r matches Ok(t) && t@ == render(label_seq(func_name@, label@)),
    {
        let mut v: Vec<Instr> = Vec::new();
        v.push(Instr::Mark(qual_label_string(func_name, label)));
        let text = render_instrs(&v);
        proof {
            assert(views_of_instrs(v@) =~= label_seq(func_name@, label@));
        }
        Ok(text)
    }

    /// Emits the unconditional jump of `goto name`.
    pub fn cgoto2asm(label: &str, func_name: &str) -> (r: Result<String, VmError>)
        ensures
            r matches Ok(t) && t@ == render(goto_seq(func_name@, label@)),
    {
        let mut v: Vec<Instr> = Vec::new();
        v.push(Instr::AtSym(qual_label_string(func_name, label)));
        v.push(Instr::C(Dest::NoDest, Comp::Zero, Jump::Jmp));
        let text = render_instrs(&v);
        proof {
            assert(views_of_instrs(v@) =~= goto_seq(func_name@, label@));
        }
        Ok(text)
    }

    /// Emits the pop-and-branch of `if-goto name`.
    pub fn cif2asm(label: &str, func_name: &str) -> (r: Result<String, VmError>)
        ensures
            r matches Ok(t) && t@ == render(if_goto_seq(func_name@, label@)),
    {
        let mut v: Vec<Instr> = Vec::new();
        v.push(Instr::AtSym(String::from_str("SP")));
        v.push(Instr::C(Dest::RegAM, Comp::MMinusOne, Jump::NoJump));
        v.push(Instr::C(Dest::RegD, Comp::ValM, Jump::NoJump));
        v.push(Instr::AtSym(qual_label_string(func_name, label)));
        v.push(Instr::C(Dest::NoDest, Comp::ValD, Jump::Jne));
        let text = render_instrs(&v);
        proof {
            assert(views_of_instrs(v@) =~= if_goto_seq(func_name@, label@));
        }
        Ok(text)
    }

    /// Emits the entry marker of `function name nLocals` and, for a
    /// positive local count, the local-zeroing loop.
    pub fn cfunction2asm(func_name: &str, n_vars: &u16) -> (r: Result<String, VmError>)
        ensures
            r matches Ok(t) && t@ == render(function_seq(func_name@, *n_vars)),
    {
        let mut v: Vec<Instr> = Vec::new();
        v.push(Instr::Mark(String::from_str(func_name)));
        if *n_vars > 0 {
            v.push(Instr::At(*n_vars));
            v.push(Instr::C(Dest::RegD, Comp::ValA, Jump::NoJump));
            v.push(Instr::Mark(rep_label_string(func_name)));
            v.push(Instr::AtSym(String::from_str("SP")));
            v.push(Instr::C(Dest::RegAM, Comp::MPlusOne, Jump::NoJump));
            v.push(Instr::C(Dest::RegA, Comp::AMinusOne, Jump::NoJump));
            v.push(Instr::C(Dest::RegM, Comp::Zero, Jump::NoJump));
            v.push(Instr::AtSym(rep_label_string(func_name)));
            v.push(Instr::C(Dest::RegD, Comp::DMinusOne, Jump::Jgt));
        }
        let text = render_instrs(&v);
        proof {
            assert(views_of_instrs(v@) =~= function_seq(func_name@, *n_vars));
        }
        Ok(text)
    }

    /// Emits the calling sequence of `call name nArgs`; the fresh return
    /// label consumes one counter value.
    pub fn ccall2asm(fname: &String, n_args: &u16, jump_count: u64) -> (r: Result<
        (u64, String),
        VmError,
    >)
        requires
            jump_count < u64::MAX,
        ensures
            r matches Ok(p) && p.0 == jump_count + 1 && p.1@ == render(
                call_seq(fname@, *n_args, jump_count as nat),
            ),
    {
        let ret = ret_label_string(fname.as_str(), jump_count);
        let mut v: Vec<Instr> = Vec::new();
        v.push(Instr::AtSym(ret.clone()));
        v.push(Instr::C(Dest::RegD, Comp::ValA, Jump::NoJump));
        v.push(Instr::AtSym(String::from_str("SP")));
        v.push(Instr::C(Dest::RegAM, Comp::MPlusOne, Jump::NoJump));
        v.push(Instr::C(Dest::RegA, Comp::AMinusOne, Jump::NoJump));
        v.push(Instr::C(Dest::RegM, Comp::ValD, Jump::NoJump));
        v.push(Instr::AtSym(String::from_str("LCL")));
        v.push(Instr::C(Dest::RegD, Comp::ValM, Jump::NoJump));
        v.push(Instr::AtSym(String::from_str("SP")));
        v.push(Instr::C(Dest::RegAM, Comp::MPlusOne, Jump::NoJump));
        v.push(Instr::C(Dest::RegA, Comp::AMinusOne, Jump::NoJump));
        v.push(Instr::C(Dest::RegM, Comp::ValD, Jump::NoJump));
        v.push(Instr::AtSym(String::from_str("ARG")));
        v.push(Instr::C(Dest::RegD, Comp::ValM, Jump::NoJump));
        v.push(Instr::AtSym(String::from_str("SP")));
        v.push(Instr::C(Dest::RegAM, Comp::MPlusOne, Jump::NoJump));
        v.push(Instr::C(Dest::RegA, Comp::AMinusOne, Jump::NoJump));
        v.push(Instr::C(Dest::RegM, Comp::ValD, Jump::NoJump));
        v.push(Instr::AtSym(String::from_str("THIS")));
        v.push(Instr::C(Dest::RegD, Comp::ValM, Jump::NoJump));
        v.push(Instr::AtSym(String::from_str("SP")));
        v.push(Instr::C(Dest::RegAM, Comp::MPlusOne, Jump::NoJump));
        v.push(Instr::C(Dest::RegA, Comp::AMinusOne, Jump::NoJump));
        v.push(Instr::C(Dest::RegM, Comp::ValD, Jump::NoJump));
        v.push(Instr::AtSym(String::from_str("THAT")));
        v.push(Instr::C(Dest::RegD, Comp::ValM, Jump::NoJump));
        v.push(Instr::AtSym(String::from_str("SP")));
        v.push(Instr::C(Dest::RegAM, Comp::MPlusOne, Jump::NoJump));
        v.push(Instr::C(Dest::RegA, Comp::AMinusOne, Jump::NoJump));
        v.push(Instr::C(Dest::RegM, Comp::ValD, Jump::NoJump));
        v.push(Instr::AtSym(String::from_str("SP")));
        v.push(Instr::C(Dest::RegD, Comp::ValM, Jump::NoJump));
        v.push(Instr::AtSym(String::from_str("LCL")));
        v.push(Instr::C(Dest::RegM, Comp::ValD, Jump::NoJump));
        v.push(Instr::At(5));
        v.push(Instr::C(Dest::RegD, Comp::DMinusA, Jump::NoJump));
        v.push(Instr::At(*n_args));
        v.push(Instr::C(Dest::RegD, Comp::DMinusA, Jump::NoJump));
        v.push(Instr::AtSym(String::from_str("ARG")));
        v.push(Instr::C(Dest::RegM, Comp::ValD, Jump::NoJump));
        v.push(Instr::AtSym(String::from_str(fname.as_str())));
        v.push(Instr::C(Dest::NoDest, Comp::Zero, Jump::Jmp));
        v.push(Instr::Mark(ret));
        let text = render_instrs(&v);
        proof {
            assert(views_of_instrs(v@) =~= call_seq(fname@, *n_args, jump_count as nat));
        }
        Ok((jump_count + 1, text))
    }

    /// Emits the fixed returning sequence of `return`.
    pub fn creturn2asm() -> (r: Result<String, VmError>)
        ensures
            r matches Ok(t) && t@ == render(return_seq()),
    {
        let mut v: Vec<Instr> = Vec::new();
        v.push(Instr::AtSym(String::from_str("LCL")));
        v.push(Instr::C(Dest::RegD, Comp::ValM, Jump::NoJump));
        v.push(Instr::AtSym(String::from_str("R13")));
        v.push(Instr::C(Dest::RegM, Comp::ValD, Jump::NoJump));
        v.push(Instr::At(5));
        v.push(Instr::C(Dest::RegA, Comp::DMinusA, Jump::NoJump));
        v.push(Instr::C(Dest::RegD, Comp::ValM, Jump::NoJump));
        v.push(Instr::AtSym(String::from_str("R14")));
        v.push(Instr::C(Dest::RegM, Comp::ValD, Jump::NoJump));
        v.push(Instr::AtSym(String::from_str("SP")));
        v.push(Instr::C(Dest::RegAM, Comp::MMinusOne, Jump::NoJump));
        v.push(Instr::C(Dest::RegD, Comp::ValM, Jump::NoJump));
        v.push(Instr::AtSym(String::from_str("ARG")));
        v.push(Instr::C(Dest::RegA, Comp::ValM, Jump::NoJump));
        v.push(Instr::C(Dest::RegM, Comp::ValD, Jump::NoJump));
        v.push(Instr::AtSym(String::from_str("ARG")));
        v.push(Instr::C(Dest::RegD, Comp::ValM, Jump::NoJump));
        v.push(Instr::AtSym(String::from_str("SP")));
        v.push(Instr::C(Dest::RegM, Comp::DPlusOne, Jump::NoJump));
        v.push(Instr::AtSym(String::from_str("R13")));
        v.push(Instr::C(Dest::RegAM, Comp::MMinusOne, Jump::NoJump));
        v.push(Instr::C(Dest::RegD, Comp::ValM, Jump::NoJump));
        v.push(Instr::AtSym(String::from_str("THAT")));
        v.push(Instr::C(Dest::RegM, Comp::ValD, Jump::NoJump));
        v.push(Instr::AtSym(String::from_str("R13")));
        v.push(Instr::C(Dest::RegAM, Comp::MMinusOne, Jump::NoJump));
        v.push(Instr::C(Dest::RegD, Comp::ValM, Jump::NoJump));
        v.push(Instr::AtSym(String::from_str("THIS")));
        v.push(Instr::C(Dest::RegM, Comp::ValD, Jump::NoJump));
        v.push(Instr::AtSym(String::from_str("R13")));
        v.push(Instr::C(Dest::RegAM, Comp::MMinusOne, Jump::NoJump));
        v.push(Instr::C(Dest::RegD, Comp::ValM, Jump::NoJump));
        v.push(Instr::AtSym(String::from_str("ARG")));
        v.push(Instr::C(Dest::RegM, Comp::ValD, Jump::NoJump));
        v.push(Instr::AtSym(String::from_str("R13")));
        v.push(Instr::C(Dest::RegAM, Comp::MMinusOne, Jump::NoJump));
        v.push(Instr::C(Dest::RegD, Comp::ValM, Jump::NoJump));
        v.push(Instr::AtSym(String::from_str("LCL")));
        v.push(Instr::C(Dest::RegM, Comp::ValD, Jump::NoJump));
        v.push(Instr::AtSym(String::from_str("R14")));
        v.push(Instr::C(Dest::RegA, Comp::ValM, Jump::NoJump));
        v.push(Instr::C(Dest::NoDest, Comp::Zero, Jump::Jmp));
        let text = render_instrs(&v);
        proof {
            assert(views_of_instrs(v@) =~= return_seq());
        }
        Ok(text)
    }

    /// Emits the instruction text of one command, returning the counter
    /// after it.
    pub fn to_asm(&self, jump_count: u64, static_name: &str, curr_fname: &str) -> (r: Result<
        (u64, String),
        VmError,
    >)
        requires
            jump_count < u64::MAX,
        ensures
            match r {
                Ok(p) => gen_cmd(self@, jump_count as nat, static_name@, curr_fname@) matches Ok(q)
                    && p.0 as nat == q.0 && p.1@ == render(q.1),
                Err(e) => gen_cmd(self@, jump_count as nat, static_name@, curr_fname@) matches Err(
                    ev,
                ) && e@ == ev,
            },
    {
        match self {
            VMCommand::CArithmetic(s, _) => VMCommand::carithmetic2asm(s.as_str(), jump_count),
            VMCommand::CPush(seg, idx) => match VMCommand::cpush2asm(
                seg.as_str(),
                idx,
                static_name,
            ) {
                Ok(t) => Ok((jump_count, t)),
                Err(e) => Err(e),
            },
            VMCommand::CPop(seg, idx) => match VMCommand::cpop2asm(seg.as_str(), idx, static_name) {
                Ok(t) => Ok((jump_count, t)),
                Err(e) => Err(e),
            },
            VMCommand::CLabel(l, _) => match VMCommand::clabel2asm(l.as_str(), curr_fname) {
                Ok(t) => Ok((jump_count, t)),
                Err(e) => Err(e),
            },
            VMCommand::CGoto(l, _) => match VMCommand::cgoto2asm(l.as_str(), curr_fname) {
                Ok(t) => Ok((jump_count, t)),
                Err(e) => Err(e),
            },
            VMCommand::CIf(l, _) => match VMCommand::cif2asm(l.as_str(), curr_fname) {
                Ok(t) => Ok((jump_count, t)),
                Err(e) => Err(e),
            },
            VMCommand::CFunction(f, n) => match VMCommand::cfunction2asm(f.as_str(), n) {
                Ok(t) => Ok((jump_count, t)),
                Err(e) => Err(e),
            },
            VMCommand::CReturn(_, _) => match VMCommand::creturn2asm() {
                Ok(t) => Ok((jump_count, t)),
                Err(e) => Err(e),
            },
            VMCommand::CCall(f, n) => VMCommand::ccall2asm(f, n, jump_count),
        }
    }
}

} // verus!
