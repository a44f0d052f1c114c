//! The target machine's instruction forms and their exact textual
//! rendering.
//!
//! An instruction is an address load (of a number or of a symbol), a label
//! marker, or a compute instruction made of a destination, a computation
//! and a jump condition.  Rendering joins instruction texts with single
//! newlines and is the sole source of the emitted assembly text.

use vstd::prelude::*;
use vstd::string::*;
use crate::text::u16_dec;

verus! {

#[derive(Clone, Copy, Debug, PartialEq, Eq, Structural)]
pub enum Dest {
    NoDest,
    RegD,
    RegM,
    RegA,
    RegAM,
    RegMD,
}

#[derive(Clone, Copy, Debug, PartialEq, Eq, Structural)]
pub enum Comp {
    Zero,
    MinusOne,
    ValD,
    ValA,
    ValM,
    NotM,
    NegM,
    DPlusOne,
    DMinusOne,
    AMinusOne,
    MPlusOne,
    MMinusOne,
    DPlusA,
    DMinusA,
    MPlusD,
    MMinusD,
    MAndD,
    MOrD,
}

#[derive(Clone, Copy, Debug, PartialEq, Eq, Structural)]
pub enum Jump {
    NoJump,
    Jmp,
    Jeq,
    Jgt,
    Jlt,
    Jne,
}

/// One target instruction, with symbols held as strings.
#[derive(Debug)]
pub enum Instr {
    At(u16),
    AtSym(String),
    Mark(String),
    C(Dest, Comp, Jump),
}

/// The mathematical form of an instruction: symbols as character
/// sequences.
pub enum HInstr {
    At(u16),
    AtSym(Seq<char>),
    Mark(Seq<char>),
    C(Dest, Comp, Jump),
}

impl View for Instr {
    type V = HInstr;

    open spec fn view(&self) -> HInstr {
        match self {
            Instr::At(n) => HInstr::At(*n),
            Instr::AtSym(s) => HInstr::AtSym(s@),
            Instr::Mark(s) => HInstr::Mark(s@),
            Instr::C(d, c, j) => HInstr::C(*d, *c, *j),
        }
    }
}

pub open spec fn views_of_instrs(s: Seq<Instr>) -> Seq<HInstr> {
    s.map_values(|i: Instr| i@)
}

pub open spec fn dest_text(d: Dest) -> Seq<char> {
    match d {
        Dest::NoDest => Seq::empty(),
        Dest::RegD => "D="@,
        Dest::RegM => "M="@,
        Dest::RegA => "A="@,
        Dest::RegAM => "AM="@,
        Dest::RegMD => "MD="@,
    }
}

pub open spec fn comp_text(c: Comp) -> Seq<char> {
    match c {
        Comp::Zero => "0"@,
        Comp::MinusOne => "-1"@,
        Comp::ValD => "D"@,
        Comp::ValA => "A"@,
        Comp::ValM => "M"@,
        Comp::NotM => "!M"@,
        Comp::NegM => "-M"@,
        Comp::DPlusOne => "D+1"@,
        Comp::DMinusOne => "D-1"@,
        Comp::AMinusOne => "A-1"@,
        Comp::MPlusOne => "M+1"@,
        Comp::MMinusOne => "M-1"@,
        Comp::DPlusA => "D+A"@,
        Comp::DMinusA => "D-A"@,
        Comp::MPlusD => "M+D"@,
        Comp::MMinusD => "M-D"@,
        Comp::MAndD => "M&D"@,
        Comp::MOrD => "M|D"@,
    }
}

pub open spec fn jump_text(j: Jump) -> Seq<char> {
    match j {
        Jump::NoJump => Seq::empty(),
        Jump::Jmp => ";JMP"@,
        Jump::Jeq => ";JEQ"@,
        Jump::Jgt => ";JGT"@,
        Jump::Jlt => ";JLT"@,
        Jump::Jne => ";JNE"@,
    }
}

/// The exact text of one instruction.
pub open spec fn instr_text(i: HInstr) -> Seq<char> {
    match i {
        HInstr::At(n) => "@"@ + crate::text::dec_rep(n as nat),
        HInstr::AtSym(s) => "@"@ + s,
        HInstr::Mark(s) => "("@ + s + ")"@,
        HInstr::C(d, c, j) => dest_text(d) + comp_text(c) + jump_text(j),
    }
}

/// The exact text of an instruction sequence: instruction texts joined by
/// single newlines, with no trailing newline.
pub open spec fn render(p: Seq<HInstr>) -> Seq<char>
    decreases p.len(),
{
    if p.len() == 0 {
        Seq::empty()
    } else if p.len() == 1 {
        instr_text(p[0])
    } else {
        instr_text(p[0]) + "\n"@ + render(p.drop_first())
    }
}

pub proof fn lemma_render_snoc(p: Seq<HInstr>, x: HInstr)
    requires
        p.len() >= 1,
    ensures
        render(p.push(x)) == render(p) + "\n"@ + instr_text(x),
    decreases p.len(),
{
    if p.len() == 1 {
        assert(p.push(x).drop_first() =~= seq![x]);
        assert(p.push(x)[0] == p[0]);
        assert(render(seq![x]) == instr_text(x));
        assert(render(p) == instr_text(p[0]));
        assert(render(p.push(x)) =~= render(p) + "\n"@ + instr_text(x));
    } else {
        assert(p.push(x).drop_first() =~= p.drop_first().push(x));
        lemma_render_snoc(p.drop_first(), x);
        assert(render(p.push(x)) =~= render(p) + "\n"@ + instr_text(x));
    }
}

fn dest_str(d: Dest) -> (r: &'static str)
    ensures
        r@ == dest_text(d),
{
    match d {
        Dest::NoDest => {
            proof {
                reveal_strlit("");
            }
            assert(""@ =~= Seq::<char>::empty());
            ""
        },
        Dest::RegD => "D=",
        Dest::RegM => "M=",
        Dest::RegA => "A=",
        Dest::RegAM => "AM=",
        Dest::RegMD => "MD=",
    }
}

fn comp_str(c: Comp) -> (r: &'static str)
    ensures
        r@ == comp_text(c),
{
    match c {
        Comp::Zero => "0",
        Comp::MinusOne => "-1",
        Comp::ValD => "D",
        Comp::ValA => "A",
        Comp::ValM => "M",
        Comp::NotM => "!M",
        Comp::NegM => "-M",
        Comp::DPlusOne => "D+1",
        Comp::DMinusOne => "D-1",
        Comp::AMinusOne => "A-1",
        Comp::MPlusOne => "M+1",
        Comp::MMinusOne => "M-1",
        Comp::DPlusA => "D+A",
        Comp::DMinusA => "D-A",
        Comp::MPlusD => "M+D",
        Comp::MMinusD => "M-D",
        Comp::MAndD => "M&D",
        Comp::MOrD => "M|D",
    }
}

fn jump_str(j: Jump) -> (r: &'static str)
    ensures
        r@ == jump_text(j),
{
    match j {
        Jump::NoJump => {
            proof {
                reveal_strlit("");
            }
            assert(""@ =~= Seq::<char>::empty());
            ""
        },
        Jump::Jmp => ";JMP",
        Jump::Jeq => ";JEQ",
        Jump::Jgt => ";JGT",
        Jump::Jlt => ";JLT",
        Jump::Jne => ";JNE",
    }
}

/// The text of one instruction.
pub fn instr_string(i: &Instr) -> (r: String)
    ensures
        r@ == instr_text(i@),
{
    match i {
        Instr::At(n) => {
            let mut r = String::from_str("@");
            let num = u16_dec(*n);
            r.append(num.as_str());
            r
        },
        Instr::AtSym(s) => {
            let mut r = String::from_str("@");
            r.append(s.as_str());
            r
        },
        Instr::Mark(s) => {
            let mut r = String::from_str("(");
            r.append(s.as_str());
            r.append(")");
            r
        },
        Instr::C(d, c, j) => {
            let mut r = String::from_str(dest_str(*d));
            r.append(comp_str(*c));
            r.append(jump_str(*j));
            r
        },
    }
}

/// Renders an instruction sequence as assembly text, one instruction per
/// line.
pub fn render_instrs(v: &Vec<Instr>) -> (r: String)
    ensures
        r@ == render(views_of_instrs(v@)),
{
    let mut r = String::new();
    let mut i: usize = 0;
    proof {
        assert(views_of_instrs(v@).take(0) =~= Seq::<HInstr>::empty());
    }
    while i < v.len()
        invariant
            i <= v@.len(),
            r@ == render(views_of_instrs(v@).take(i as int)),
        decreases v@.len() - i,
    {
        let line = instr_string(&v[i]);
        if i == 0 {
            r = line;
            proof {
                assert(views_of_instrs(v@).take(1) =~= seq![v@[0]@]);
            }
        } else {
            r.append("\n");
            r.append(line.as_str());
            proof {
                lemma_render_snoc(views_of_instrs(v@).take(i as int), v@[i as int]@);
                assert(views_of_instrs(v@).take(i + 1) =~= views_of_instrs(v@).take(i as int).push(
                    v@[i as int]@,
                ));
            }
        }
        i += 1;
    }
    proof {
        assert(views_of_instrs(v@).take(v@.len() as int) =~= views_of_instrs(v@));
    }
    r
}

} // verus!
