//! Source commands and the line parser.
//!
//! A cleaned source line (comments stripped, whitespace-trimmed) is split
//! on whitespace and classified by its first token.  A command is
//! immutable once parsed and carries no generation state.

use vstd::prelude::*;
use vstd::string::*;
use crate::text::{all_digits, dec_value, str_eq, tokenize, tokens_of, views_of, parse_u16};

verus! {

/// The kind of a translation failure.
#[derive(Clone, Copy, Debug, PartialEq, Eq, Structural)]
pub enum ErrKind {
    UnrecognizedCommand,
    UnrecognizedSegment,
    UnrecognizedOperator,
    MalformedOperand,
}

/// A translation failure: its kind and the offending token.
#[derive(Debug)]
pub struct VmError {
    pub kind: ErrKind,
    pub token: String,
}

/// Mathematical form of a failure.
pub struct ErrV {
    pub kind: ErrKind,
    pub token: Seq<char>,
}

impl View for VmError {
    type V = ErrV;

    open spec fn view(&self) -> ErrV {
        ErrV { kind: self.kind, token: self.token@ }
    }
}

/// One parsed source command.
#[derive(Debug)]
pub enum VMCommand {
    CArithmetic(String, u16),
    CPush(String, u16),
    CPop(String, u16),
    CLabel(String, u16),
    CGoto(String, u16),
    CIf(String, u16),
    CFunction(String, u16),
    CReturn(String, u16),
    CCall(String, u16),
}

/// Mathematical form of a command.
pub enum CommandV {
    CArithmetic(Seq<char>, u16),
    CPush(Seq<char>, u16),
    CPop(Seq<char>, u16),
    CLabel(Seq<char>, u16),
    CGoto(Seq<char>, u16),
    CIf(Seq<char>, u16),
    CFunction(Seq<char>, u16),
    CReturn(Seq<char>, u16),
    CCall(Seq<char>, u16),
}

impl View for VMCommand {
    type V = CommandV;

    open spec fn view(&self) -> CommandV {
        match self {
            VMCommand::CArithmetic(s, n) => CommandV::CArithmetic(s@, *n),
            VMCommand::CPush(s, n) => CommandV::CPush(s@, *n),
            VMCommand::CPop(s, n) => CommandV::CPop(s@, *n),
            VMCommand::CLabel(s, n) => CommandV::CLabel(s@, *n),
            VMCommand::CGoto(s, n) => CommandV::CGoto(s@, *n),
            VMCommand::CIf(s, n) => CommandV::CIf(s@, *n),
            VMCommand::CFunction(s, n) => CommandV::CFunction(s@, *n),
            VMCommand::CReturn(s, n) => CommandV::CReturn(s@, *n),
            VMCommand::CCall(s, n) => CommandV::CCall(s@, *n),
        }
    }
}

pub open spec fn err_v(kind: ErrKind, token: Seq<char>) -> ErrV {
    ErrV { kind: kind, token: token }
}

/// An operand field that denotes a non-negative 16-bit integer.
pub open spec fn valid_u16_numeral(s: Seq<char>) -> bool {
    s.len() > 0 && all_digits(s) && dec_value(s) <= u16::MAX
}

/// The nine arithmetic-logic mnemonics.
pub open spec fn is_arith_mnemonic(s: Seq<char>) -> bool {
    ||| s == "add"@
    ||| s == "sub"@
    ||| s == "and"@
    ||| s == "or"@
    ||| s == "neg"@
    ||| s == "not"@
    ||| s == "eq"@
    ||| s == "gt"@
    ||| s == "lt"@
}

/// What parsing one cleaned line yields: classification of the line's
/// whitespace-separated tokens by the first token.  A known command word
/// with the wrong number of tokens, or with an operand field that does not
/// denote a 16-bit integer, is a malformed operand; an unknown first word
/// is an unrecognized command.  Segment names are not judged here: the
/// code generator rejects an unknown segment.
pub open spec fn parse_cmd(line: Seq<char>) -> Result<CommandV, ErrV> {
    let ts = tokens_of(line);
    if ts.len() == 0 {
        Err(err_v(ErrKind::UnrecognizedCommand, Seq::empty()))
    } else if ts[0] == "push"@ || ts[0] == "pop"@ {
        if ts.len() != 3 {
            Err(err_v(ErrKind::MalformedOperand, ts[0]))
        } else if !valid_u16_numeral(ts[2]) {
            Err(err_v(ErrKind::MalformedOperand, ts[2]))
        } else if ts[0] == "push"@ {
            Ok(CommandV::CPush(ts[1], dec_value(ts[2]) as u16))
        } else {
            Ok(CommandV::CPop(ts[1], dec_value(ts[2]) as u16))
        }
    } else if is_arith_mnemonic(ts[0]) {
        if ts.len() != 1 {
            Err(err_v(ErrKind::MalformedOperand, ts[0]))
        } else {
            Ok(CommandV::CArithmetic(ts[0], 0))
        }
    } else if ts[0] == "label"@ || ts[0] == "goto"@ || ts[0] == "if-goto"@ {
        if ts.len() != 2 {
            Err(err_v(ErrKind::MalformedOperand, ts[0]))
        } else if ts[0] == "label"@ {
            Ok(CommandV::CLabel(ts[1], 0))
        } else if ts[0] == "goto"@ {
            Ok(CommandV::CGoto(ts[1], 0))
        } else {
            Ok(CommandV::CIf(ts[1], 0))
        }
    } else if ts[0] == "function"@ || ts[0] == "call"@ {
        if ts.len() != 3 {
            Err(err_v(ErrKind::MalformedOperand, ts[0]))
        } else if !valid_u16_numeral(ts[2]) {
            Err(err_v(ErrKind::MalformedOperand, ts[2]))
        } else if ts[0] == "function"@ {
            Ok(CommandV::CFunction(ts[1], dec_value(ts[2]) as u16))
        } else {
            Ok(CommandV::CCall(ts[1], dec_value(ts[2]) as u16))
        }
    } else if ts[0] == "return"@ {
        if ts.len() != 1 {
            Err(err_v(ErrKind::MalformedOperand, ts[0]))
        } else {
            Ok(CommandV::CReturn(ts[0], 0))
        }
    } else {
        Err(err_v(ErrKind::UnrecognizedCommand, ts[0]))
    }
}

impl VMCommand {
    /// Parses one cleaned source line into a command.
    pub fn new(s: &String) -> (r: Result<VMCommand, VmError>)
        ensures
            match r {
                Ok(c) => parse_cmd(s@) == Ok::<CommandV, ErrV>(c@),
                Err(e) => parse_cmd(s@) == Err::<CommandV, ErrV>(e@),
            },
    {
        let toks = tokenize(s.as_str());
        proof {
            assert(views_of(toks@) == tokens_of(s@));
            assert(toks@.len() == tokens_of(s@).len());
        }
        if toks.len() == 0 {
            return Err(VmError { kind: ErrKind::UnrecognizedCommand, token: String::new() });
        }
        proof {
            assert(toks@[0]@ == tokens_of(s@)[0]);
        }
        let head = &toks[0];
        if str_eq(head.as_str(), "push") || str_eq(head.as_str(), "pop") {
            if toks.len() != 3 {
                return Err(VmError { kind: ErrKind::MalformedOperand, token: head.clone() });
            }
            proof {
                assert(toks@[1]@ == tokens_of(s@)[1]);
                assert(toks@[2]@ == tokens_of(s@)[2]);
            }
            let idx = match parse_u16(toks[2].as_str()) {
                Some(v) => v,
                Option::None => {
                    return Err(
                        VmError { kind: ErrKind::MalformedOperand, token: toks[2].clone() },
                    );
                },
            };
            if str_eq(head.as_str(), "push") {
                Ok(VMCommand::CPush(toks[1].clone(), idx))
            } else {
                Ok(VMCommand::CPop(toks[1].clone(), idx))
            }
        } else if str_eq(head.as_str(), "add") || str_eq(head.as_str(), "sub") || str_eq(
            head.as_str(),
            "and",
        ) || str_eq(head.as_str(), "or") || str_eq(head.as_str(), "neg") || str_eq(
            head.as_str(),
            "not",
        ) || str_eq(head.as_str(), "eq") || str_eq(head.as_str(), "gt") || str_eq(
            head.as_str(),
            "lt",
        ) {
            if toks.len() != 1 {
                return Err(VmError { kind: ErrKind::MalformedOperand, token: head.clone() });
            }
            Ok(VMCommand::CArithmetic(toks[0].clone(), 0))
        } else if str_eq(head.as_str(), "label") || str_eq(head.as_str(), "goto") || str_eq(
            head.as_str(),
            "if-goto",
        ) {
            if toks.len() != 2 {
                return Err(VmError { kind: ErrKind::MalformedOperand, token: head.clone() });
            }
            proof {
                assert(toks@[1]@ == tokens_of(s@)[1]);
            }
            if str_eq(head.as_str(), "label") {
                Ok(VMCommand::CLabel(toks[1].clone(), 0))
            } else if str_eq(head.as_str(), "goto") {
                Ok(VMCommand::CGoto(toks[1].clone(), 0))
            } else {
                Ok(VMCommand::CIf(toks[1].clone(), 0))
            }
        } else if str_eq(head.as_str(), "function") || str_eq(head.as_str(), "call") {
            if toks.len() != 3 {
                return Err(VmError { kind: ErrKind::MalformedOperand, token: head.clone() });
            }
            proof {
                assert(toks@[1]@ == tokens_of(s@)[1]);
                assert(toks@[2]@ == tokens_of(s@)[2]);
            }
            let n = match parse_u16(toks[2].as_str()) {
                Some(v) => v,
                Option::None => {
                    return Err(
                        VmError { kind: ErrKind::MalformedOperand, token: toks[2].clone() },
                    );
                },
            };
            if str_eq(head.as_str(), "function") {
                Ok(VMCommand::CFunction(toks[1].clone(), n))
            } else {
                Ok(VMCommand::CCall(toks[1].clone(), n))
            }
        } else if str_eq(head.as_str(), "return") {
            if toks.len() != 1 {
                return Err(VmError { kind: ErrKind::MalformedOperand, token: head.clone() });
            }
            Ok(VMCommand::CReturn(toks[0].clone(), 0))
        } else {
            Err(VmError { kind: ErrKind::UnrecognizedCommand, token: head.clone() })
        }
    }
}

} // verus!
