//! The unit and program orchestrators.
//!
//! A source unit is a list of raw lines together with the unit's static
//! name.  Translating a unit strips comments, skips blank lines, parses
//! each remaining line and folds it through the code generator, threading
//! the jump-label counter and the current function name.  Translating a
//! program folds its units in order, carrying the counter across unit
//! boundaries and resetting the current function name to the program-wide
//! default scope at the start of each unit, with the bootstrap prologue,
//! when requested, strictly first.

use vstd::prelude::*;
use vstd::string::*;
use crate::command::{ErrV, VMCommand, VmError, CommandV, parse_cmd};
use crate::gen::{call_seq, ci, gen_cmd};
use crate::instr::{Comp, Dest, HInstr, Instr, Jump, render, render_instrs, views_of_instrs};
use crate::text::{is_space_char, tokens_of, views_of};

verus! {

/// Index of the first comment opener (two consecutive slashes), or the
/// line's length when there is none.
pub open spec fn comment_ix(s: Seq<char>) -> nat
    decreases s.len(),
{
    if s.len() < 2 {
        s.len()
    } else if s[0] == '/' && s[1] == '/' {
        0
    } else {
        (1 + comment_ix(s.drop_first())) as nat
    }
}

/// A line with its trailing comment removed.
pub open spec fn clean_line(s: Seq<char>) -> Seq<char> {
    s.take(comment_ix(s) as int)
}

proof fn lemma_comment_ix_is(s: Seq<char>, k: int)
    requires
        0 <= k <= s.len(),
        forall|m: int|
            0 <= m < k ==> !(m + 1 < s.len() && s[m] == '/' && #[trigger] s[m + 1] == '/'),
        k == s.len() || (k + 1 < s.len() && s[k] == '/' && s[k + 1] == '/'),
    ensures
        comment_ix(s) == k,
    decreases s.len(),
{
    if s.len() < 2 {
        assert(k == s.len());
    } else if s[0] == '/' && s[1] == '/' {
        assert(k == 0) by {
            if k > 0 {
                assert(!(0 + 1 < s.len() && s[0] == '/' && s[0int + 1] == '/'));
            }
        }
    } else {
        assert(k >= 1) by {
            if k == 0 {
                assert(k + 1 < s.len() && s[k] == '/' && s[k + 1int] == '/');
            }
        }
        let t = s.drop_first();
        assert(forall|m: int| 0 <= m < t.len() ==> t[m] == s[m + 1]);
        assert forall|m: int|
            0 <= m < k - 1 implies !(m + 1 < t.len() && t[m] == '/' && #[trigger] t[m + 1]
            == '/') by {
            let mm = m + 1;
            assert(!(mm + 1 < s.len() && s[mm] == '/' && s[mm + 1] == '/'));
        }
        lemma_comment_ix_is(t, k - 1);
    }
}

/// A line's token list is empty exactly when every character is
/// whitespace.
proof fn lemma_tokens_empty(s: Seq<char>)
    ensures
        (tokens_of(s).len() == 0) <==> (forall|i: int|
            0 <= i < s.len() ==> is_space_char(#[trigger] s[i])),
    decreases s.len(),
{
    if s.len() == 0 {
    } else if is_space_char(s[0]) {
        lemma_tokens_empty(s.drop_first());
        assert(forall|i: int| 0 <= i < s.drop_first().len() ==> s.drop_first()[i] == s[i + 1]);
        if tokens_of(s).len() == 0 {
            assert forall|i: int| 0 <= i < s.len() implies is_space_char(#[trigger] s[i]) by {
                if i > 0 {
                    assert(is_space_char(s.drop_first()[i - 1]));
                }
            }
        }
    } else {
        assert(tokens_of(s).len() >= 1);
    }
}

/// Removes the trailing comment of one raw line.
pub fn strip_comment<'a>(s: &'a str) -> (r: &'a str)
    ensures
        r@ == clean_line(s@),
{
    let len = s.unicode_len();
    let mut i: usize = 0;
    while 1 < len && i < len - 1
        invariant
            0 <= i,
            i <= len,
            len == s@.len(),
            forall|m: int|
                0 <= m < i ==> !(m + 1 < s@.len() && s@[m] == '/' && #[trigger] s@[m + 1] == '/'),
        decreases len - i,
    {
        if s.get_char(i) == '/' && s.get_char(i + 1) == '/' {
            proof {
                lemma_comment_ix_is(s@, i as int);
            }
            return s.substring_char(0, i);
        }
        i += 1;
    }
    proof {
        lemma_comment_ix_is(s@, len as int);
        assert(s@.take(len as int) =~= s@);
    }
    s
}

/// Whether a cleaned line holds no token at all.
pub fn is_blank(s: &str) -> (r: bool)
    ensures
        r == (tokens_of(s@).len() == 0),
{
    let len = s.unicode_len();
    let mut i: usize = 0;
    while i < len
        invariant
            i <= len,
            len == s@.len(),
            forall|m: int| 0 <= m < i ==> is_space_char(#[trigger] s@[m]),
        decreases len - i,
    {
        let c = s.get_char(i);
        if !(c == ' ' || c == '\t' || c == '\r') {
            proof {
                lemma_tokens_empty(s@);
            }
            return false;
        }
        i += 1;
    }
    proof {
        lemma_tokens_empty(s@);
    }
    true
}

/// The function name a command leaves current: a function declaration
/// rebinds it, every other command keeps it.
pub open spec fn next_fname(cmd: CommandV, fname: Seq<char>) -> Seq<char> {
    match cmd {
        CommandV::CFunction(f, _) => f,
        _ => fname,
    }
}

/// The fold of one unit's raw lines through the code generator: blank and
/// comment-only lines are skipped; any failure ends the whole translation
/// with that failure.  Yields the text accumulated so far extended by one
/// rendered fragment and one newline per command, and the counter after
/// the unit.
pub open spec fn unit_fold(
    lines: Seq<Seq<char>>,
    sname: Seq<char>,
    fname: Seq<char>,
    jc: nat,
    acc: Seq<char>,
) -> Result<(Seq<char>, nat), ErrV>
    decreases lines.len(),
{
    if lines.len() == 0 {
        Ok((acc, jc))
    } else {
        let l = clean_line(lines[0]);
        if tokens_of(l).len() == 0 {
            unit_fold(lines.drop_first(), sname, fname, jc, acc)
        } else {
            match parse_cmd(l) {
                Err(e) => Err(e),
                Ok(cmd) => match gen_cmd(cmd, jc, sname, fname) {
                    Err(e) => Err(e),
                    Ok(p) => unit_fold(
                        lines.drop_first(),
                        sname,
                        next_fname(cmd, fname),
                        p.0,
                        acc + render(p.1) + "\n"@,
                    ),
                },
            }
        }
    }
}

/// The counter grows by at most one per line across a unit.
pub proof fn lemma_unit_fold_jc(
    lines: Seq<Seq<char>>,
    sname: Seq<char>,
    fname: Seq<char>,
    jc: nat,
    acc: Seq<char>,
)
    ensures
        unit_fold(lines, sname, fname, jc, acc) matches Ok(p) ==> jc <= p.1 <= jc + lines.len(),
    decreases lines.len(),
{
    if lines.len() > 0 {
        let l = clean_line(lines[0]);
        if tokens_of(l).len() == 0 {
            lemma_unit_fold_jc(lines.drop_first(), sname, fname, jc, acc);
        } else {
            match parse_cmd(l) {
                Err(_) => {},
                Ok(cmd) => match gen_cmd(cmd, jc, sname, fname) {
                    Err(_) => {},
                    Ok(p) => {
                        lemma_unit_fold_jc(
                            lines.drop_first(),
                            sname,
                            next_fname(cmd, fname),
                            p.0,
                            acc + render(p.1) + "\n"@,
                        );
                    },
                },
            }
        }
    }
}

/// Translates one source unit's raw lines, starting from the given
/// counter, with the current function name initially the program-wide
/// default scope.
pub fn translate_vm(lines: &Vec<String>, static_name: &str, jump_count: u64) -> (r: Result<
    (String, u64),
    VmError,
>)
    requires
        jump_count + lines@.len() <= u64::MAX,
    ensures
        match r {
            Ok(p) => unit_fold(views_of(lines@), static_name@, "System"@, jump_count as nat, Seq::empty())
                == Ok::<(Seq<char>, nat), ErrV>((p.0@, p.1 as nat)),
            Err(e) => unit_fold(views_of(lines@), static_name@, "System"@, jump_count as nat, Seq::empty())
                == Err::<(Seq<char>, nat), ErrV>(e@),
        },
{
    let mut jc: u64 = jump_count;
    let mut func_name = String::from_str("System");
    let mut out = String::new();
    let mut i: usize = 0;
    proof {
        assert(views_of(lines@).skip(0) =~= views_of(lines@));
    }
    while i < lines.len()
        invariant
            i <= lines@.len(),
            jc + (lines@.len() - i) <= u64::MAX,
            unit_fold(views_of(lines@), static_name@, "System"@, jump_count as nat, Seq::empty())
                == unit_fold(views_of(lines@).skip(i as int), static_name@, func_name@, jc as nat, out@),
        decreases lines@.len() - i,
    {
        proof {
            assert(views_of(lines@).skip(i as int)[0] == lines@[i as int]@);
            assert(views_of(lines@).skip(i as int).drop_first() =~= views_of(lines@).skip(i + 1));
        }
        let stripped = strip_comment(lines[i].as_str());
        if !is_blank(stripped) {
            let line = stripped.to_owned();
            let cmd = match VMCommand::new(&line) {
                Ok(c) => c,
                Err(e) => {
                    return Err(e);
                },
            };
            let ret = match cmd.to_asm(jc, static_name, func_name.as_str()) {
                Ok(p) => p,
                Err(e) => {
                    return Err(e);
                },
            };
            jc = ret.0;
            out.append(ret.1.as_str());
            out.append("\n");
            if let VMCommand::CFunction(fname, _) = &cmd {
                func_name = fname.clone();
            }
        }
        i += 1;
    }
    proof {
        assert(views_of(lines@).skip(lines@.len() as int) =~= Seq::<Seq<char>>::empty());
    }
    Ok((out, jc))
}

/// The fixed program-entry prologue: set the stack pointer to the base
/// stack address.
pub open spec fn bootstrap_prefix_seq() -> Seq<HInstr> {
    seq![
        HInstr::At(256),
        ci(Dest::RegD, Comp::ValA),
        HInstr::AtSym("SP"@),
        ci(Dest::RegM, Comp::ValD),
    ]
}

/// The full bootstrap text: stack initialization, then a call of the
/// program's designated entry function with no arguments, whose return
/// label consumes one counter value.
pub open spec fn bootstrap_text(jc: nat) -> Seq<char> {
    render(bootstrap_prefix_seq()) + "\n"@ + render(call_seq("Sys.init"@, 0, jc)) + "\n"@
}

/// Emits the bootstrap prologue and advances the counter by one.
pub fn bootstrap(jump_cnt: u64) -> (r: (String, u64))
    requires
        jump_cnt < u64::MAX,
    ensures
        r.0@ == bootstrap_text(jump_cnt as nat),
        r.1 == jump_cnt + 1,
{
    let mut v: Vec<Instr> = Vec::new();
    v.push(Instr::At(256));
    v.push(Instr::C(Dest::RegD, Comp::ValA, Jump::NoJump));
    v.push(Instr::AtSym(String::from_str("SP")));
    v.push(Instr::C(Dest::RegM, Comp::ValD, Jump::NoJump));
    let mut out = render_instrs(&v);
    proof {
        assert(views_of_instrs(v@) =~= bootstrap_prefix_seq());
    }
    out.append("\n");
    let entry = String::from_str("Sys.init");
    let zero: u16 = 0;
    let call = match VMCommand::ccall2asm(&entry, &zero, jump_cnt) {
        Ok(p) => p,
        Err(_) => {
            (jump_cnt, String::new())
        },
    };
    out.append(call.1.as_str());
    out.append("\n");
    (out, jump_cnt + 1)
}

/// One translatable source unit's file path and unit-scoped static name.
pub struct CompileTarget {
    pub vm_file: String,
    pub static_name: String,
}

impl CompileTarget {
    /// Derives the unit's source file path and static name from its parent
    /// directory and file stem.
    pub fn new(parent_dir: &String, file_name: &String) -> (r: CompileTarget)
        ensures
            r.vm_file@ == parent_dir@ + "/"@ + file_name@ + ".vm"@,
            r.static_name@ == file_name@,
    {
        let mut vm_file = String::from_str(parent_dir.as_str());
        vm_file.append("/");
        vm_file.append(file_name.as_str());
        vm_file.append(".vm");
        let static_name = String::from_str(file_name.as_str());
        CompileTarget { vm_file, static_name }
    }
}

/// One source unit: its unit-scoped static name and its raw lines.
pub struct SourceUnit {
    pub static_name: String,
    pub lines: Vec<String>,
}

/// Mathematical form of a source unit.
pub struct UnitV {
    pub static_name: Seq<char>,
    pub lines: Seq<Seq<char>>,
}

impl View for SourceUnit {
    type V = UnitV;

    open spec fn view(&self) -> UnitV {
        UnitV { static_name: self.static_name@, lines: views_of(self.lines@) }
    }
}

pub open spec fn units_view(s: Seq<SourceUnit>) -> Seq<UnitV> {
    s.map_values(|u: SourceUnit| u@)
}

/// Total number of raw lines over a program's units.
pub open spec fn total_lines(units: Seq<UnitV>) -> nat
    decreases units.len(),
{
    if units.len() == 0 {
        0
    } else {
        units[0].lines.len() + total_lines(units.drop_first())
    }
}

/// The fold of a program's units: each unit starts with the default scope
/// name and its own static name, and hands its counter to the next unit.
pub open spec fn program_fold(units: Seq<UnitV>, jc: nat, acc: Seq<char>) -> Result<
    (Seq<char>, nat),
    ErrV,
>
    decreases units.len(),
{
    if units.len() == 0 {
        Ok((acc, jc))
    } else {
        match unit_fold(units[0].lines, units[0].static_name, "System"@, jc, acc) {
            Err(e) => Err(e),
            Ok(p) => program_fold(units.drop_first(), p.1, p.0),
        }
    }
}

/// What translating a whole program yields: the concatenated unit texts,
/// prefixed by the bootstrap prologue when one is requested, in which
/// case the bootstrap's return label takes counter value zero and the
/// units start from one.
pub open spec fn program_text(units: Seq<UnitV>, with_bootstrap: bool) -> Result<Seq<char>, ErrV> {
    let start: nat = if with_bootstrap {
        1
    } else {
        0
    };
    let acc = if with_bootstrap {
        bootstrap_text(0)
    } else {
        Seq::empty()
    };
    match program_fold(units, start, acc) {
        Err(e) => Err(e),
        Ok(p) => Ok(p.0),
    }
}

/// An accumulator-shift law of the program fold: text already
/// accumulated stands unchanged in front of what the units add.
pub proof fn lemma_program_fold_acc(units: Seq<UnitV>, jc: nat, acc: Seq<char>)
    ensures
        program_fold(units, jc, Seq::empty()) matches Ok(q) ==> program_fold(units, jc, acc)
            == Ok::<(Seq<char>, nat), ErrV>((acc + q.0, q.1)),
        program_fold(units, jc, Seq::empty()) matches Err(e) ==> program_fold(units, jc, acc)
            == Err::<(Seq<char>, nat), ErrV>(e),
    decreases units.len(),
{
    if units.len() == 0 {
        assert(acc + Seq::<char>::empty() =~= acc);
    } else {
        lemma_unit_fold_acc(units[0].lines, units[0].static_name, "System"@, jc, acc);
        match unit_fold(units[0].lines, units[0].static_name, "System"@, jc, Seq::empty()) {
            Err(_) => {},
            Ok(p) => {
                lemma_program_fold_acc(units.drop_first(), p.1, acc + p.0);
                lemma_program_fold_acc(units.drop_first(), p.1, p.0);
                match program_fold(units.drop_first(), p.1, Seq::empty()) {
                    Ok(r) => {
                        assert((acc + p.0) + r.0 =~= acc + (p.0 + r.0));
                    },
                    Err(_) => {},
                }
            },
        }
    }
}

/// When a bootstrap is requested it stands strictly before all unit
/// output: the program text is exactly the bootstrap text followed by
/// the fold of the units from counter one.
pub proof fn lemma_bootstrap_precedes(units: Seq<UnitV>)
    ensures
        program_fold(units, 1, Seq::empty()) matches Ok(q) ==> program_text(units, true)
            == Ok::<Seq<char>, ErrV>(bootstrap_text(0) + q.0),
        program_fold(units, 1, Seq::empty()) matches Err(e) ==> program_text(units, true) == Err::<
            Seq<char>,
            ErrV,
        >(e),
{
    lemma_program_fold_acc(units, 1, bootstrap_text(0));
}

/// An accumulator-shift law of the unit fold: text already accumulated
/// only ever stands unchanged in front of what the rest of the fold adds.
pub proof fn lemma_unit_fold_acc(
    lines: Seq<Seq<char>>,
    sname: Seq<char>,
    fname: Seq<char>,
    jc: nat,
    acc: Seq<char>,
)
    ensures
        unit_fold(lines, sname, fname, jc, Seq::empty()) matches Ok(q) ==> unit_fold(
            lines,
            sname,
            fname,
            jc,
            acc,
        ) == Ok::<(Seq<char>, nat), ErrV>((acc + q.0, q.1)),
        unit_fold(lines, sname, fname, jc, Seq::empty()) matches Err(e) ==> unit_fold(
            lines,
            sname,
            fname,
            jc,
            acc,
        ) == Err::<(Seq<char>, nat), ErrV>(e),
    decreases lines.len(),
{
    if lines.len() == 0 {
        assert(acc + Seq::<char>::empty() =~= acc);
    } else {
        let l = clean_line(lines[0]);
        if tokens_of(l).len() == 0 {
            lemma_unit_fold_acc(lines.drop_first(), sname, fname, jc, acc);
            lemma_unit_fold_acc(lines.drop_first(), sname, fname, jc, Seq::empty());
        } else {
            match parse_cmd(l) {
                Err(_) => {},
                Ok(cmd) => match gen_cmd(cmd, jc, sname, fname) {
                    Err(_) => {},
                    Ok(p) => {
                        let f2 = next_fname(cmd, fname);
                        lemma_unit_fold_acc(
                            lines.drop_first(),
                            sname,
                            f2,
                            p.0,
                            acc + render(p.1) + "\n"@,
                        );
                        lemma_unit_fold_acc(
                            lines.drop_first(),
                            sname,
                            f2,
                            p.0,
                            Seq::empty() + render(p.1) + "\n"@,
                        );
                        lemma_unit_fold_acc(lines.drop_first(), sname, f2, p.0, Seq::empty());
                        assert(Seq::<char>::empty() + render(p.1) + "\n"@ =~= render(p.1) + "\n"@);
                        match unit_fold(lines.drop_first(), sname, f2, p.0, Seq::empty()) {
                            Ok(q) => {
                                assert(acc + render(p.1) + "\n"@ + q.0 =~= acc + (render(p.1)
                                    + "\n"@ + q.0));
                            },
                            Err(_) => {},
                        }
                    },
                },
            }
        }
    }
}

/// Translates a whole program: every unit in order, the counter carried
/// across unit boundaries, and the bootstrap prologue, when requested,
/// strictly before all unit output.
pub fn translate_program(units: &Vec<SourceUnit>, with_bootstrap: bool) -> (r: Result<
    String,
    VmError,
>)
    requires
        1 + total_lines(units_view(units@)) <= u64::MAX,
    ensures
        match r {
            Ok(t) => program_text(units_view(units@), with_bootstrap) == Ok::<Seq<char>, ErrV>(t@),
            Err(e) => program_text(units_view(units@), with_bootstrap) == Err::<Seq<char>, ErrV>(
                e@,
            ),
        },
{
    let mut jc: u64 = 0;
    let mut out = String::new();
    if with_bootstrap {
        let b = bootstrap(0);
        out = b.0;
        jc = b.1;
    }
    let mut i: usize = 0;
    proof {
        assert(units_view(units@).skip(0) =~= units_view(units@));
        lemma_total_lines_skip(units_view(units@), 0);
    }
    while i < units.len()
        invariant
            i <= units@.len(),
            jc + total_lines(units_view(units@).skip(i as int)) <= u64::MAX,
            program_fold(
                units_view(units@).skip(i as int),
                jc as nat,
                out@,
            ) == program_text_fold_start(units_view(units@), with_bootstrap),
        decreases units@.len() - i,
    {
        proof {
            assert(units_view(units@).skip(i as int)[0] == units@[i as int]@);
            assert(units_view(units@).skip(i as int).drop_first() =~= units_view(units@).skip(
                i + 1,
            ));
        }
        let unit = &units[i];
        let ret = match translate_vm(&unit.lines, unit.static_name.as_str(), jc) {
            Ok(p) => p,
            Err(e) => {
                proof {
                    lemma_unit_fold_acc(
                        units@[i as int]@.lines,
                        units@[i as int]@.static_name,
                        "System"@,
                        jc as nat,
                        out@,
                    );
                }
                return Err(e);
            },
        };
        proof {
            lemma_unit_fold_acc(
                units@[i as int]@.lines,
                units@[i as int]@.static_name,
                "System"@,
                jc as nat,
                out@,
            );
            lemma_unit_fold_jc(
                units@[i as int]@.lines,
                units@[i as int]@.static_name,
                "System"@,
                jc as nat,
                Seq::empty(),
            );
        }
        out.append(ret.0.as_str());
        jc = ret.1;
        i += 1;
    }
    proof {
        assert(units_view(units@).skip(units@.len() as int) =~= Seq::<UnitV>::empty());
    }
    Ok(out)
}

/// The starting state of the program fold, before any unit.
pub open spec fn program_text_fold_start(units: Seq<UnitV>, with_bootstrap: bool) -> Result<
    (Seq<char>, nat),
    ErrV,
> {
    if with_bootstrap {
        program_fold(units, 1, bootstrap_text(0))
    } else {
        program_fold(units, 0, Seq::empty())
    }
}

proof fn lemma_total_lines_skip(units: Seq<UnitV>, i: int)
    requires
        0 <= i <= units.len(),
    ensures
        total_lines(units.skip(i)) <= total_lines(units),
    decreases i,
{
    if i == 0 {
        assert(units.skip(0) =~= units);
    } else {
        lemma_total_lines_skip(units.drop_first(), i - 1);
        assert(units.skip(i) =~= units.drop_first().skip(i - 1));
    }
}

} // verus!
