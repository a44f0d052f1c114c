//! Uniqueness of the minted jump and return labels.
//!
//! Every comparison mints a branch label and every call mints a return
//! label; both families draw their numeric suffix from the one jump-label
//! counter, which advances by exactly one per minted label and is carried
//! across unit boundaries.  The lemmas here prove that all labels minted
//! during one program translation are pairwise distinct.

use vstd::prelude::*;
use crate::command::{CommandV, parse_cmd};
use crate::gen::{
    bi_op_comp, cmp_op_jump, gen_cmd, jmp_false_label, ret_label, si_op_comp,
};
use crate::text::{
    all_digits, dec_rep, is_digit_char, lemma_concat_cancel_left, lemma_dec_rep_digits,
    lemma_dec_rep_injective, lemma_digit_suffix_unique, tokens_of,
};
use crate::translate::{UnitV, clean_line, next_fname, unit_fold};

verus! {

broadcast use vstd::seq::group_seq_axioms;

/// One freshly minted label: a comparison's branch label, or a call's
/// return label qualified by the callee's name.
pub struct LabelMint {
    pub is_ret: bool,
    pub fname: Seq<char>,
    pub jc: nat,
}

/// The text of a minted label.
pub open spec fn mint_text(m: LabelMint) -> Seq<char> {
    if m.is_ret {
        ret_label(m.fname, m.jc)
    } else {
        jmp_false_label(m.jc)
    }
}

/// The labels one command mints at a given counter value.
pub open spec fn cmd_mints(cmd: CommandV, jc: nat) -> Seq<LabelMint> {
    match cmd {
        CommandV::CArithmetic(s, _) => {
            if si_op_comp(s) matches Option::None && bi_op_comp(s) matches Option::None
                && cmp_op_jump(s) matches Option::Some(_) {
                seq![LabelMint { is_ret: false, fname: Seq::empty(), jc: jc }]
            } else {
                Seq::empty()
            }
        },
        CommandV::CCall(f, _) => seq![LabelMint { is_ret: true, fname: f, jc: jc }],
        _ => Seq::empty(),
    }
}

/// All labels minted while folding one unit's lines, in emission order.
pub open spec fn unit_mints(
    lines: Seq<Seq<char>>,
    sname: Seq<char>,
    fname: Seq<char>,
    jc: nat,
) -> Seq<LabelMint>
    decreases lines.len(),
{
    if lines.len() == 0 {
        Seq::empty()
    } else {
        let l = clean_line(lines[0]);
        if tokens_of(l).len() == 0 {
            unit_mints(lines.drop_first(), sname, fname, jc)
        } else {
            match parse_cmd(l) {
                Err(_) => Seq::empty(),
                Ok(cmd) => match gen_cmd(cmd, jc, sname, fname) {
                    Err(_) => Seq::empty(),
                    Ok(p) => cmd_mints(cmd, jc) + unit_mints(
                        lines.drop_first(),
                        sname,
                        next_fname(cmd, fname),
                        p.0,
                    ),
                },
            }
        }
    }
}

/// Every counter value minted during a unit's fold is at least the
/// starting counter.
pub proof fn lemma_unit_mint_lower(
    lines: Seq<Seq<char>>,
    sname: Seq<char>,
    fname: Seq<char>,
    jc: nat,
    i: int,
)
    requires
        0 <= i < unit_mints(lines, sname, fname, jc).len(),
    ensures
        jc <= unit_mints(lines, sname, fname, jc)[i].jc,
    decreases lines.len(),
{
    let l = clean_line(lines[0]);
    if tokens_of(l).len() == 0 {
        lemma_unit_mint_lower(lines.drop_first(), sname, fname, jc, i);
    } else {
        match parse_cmd(l) {
            Err(_) => {},
            Ok(cmd) => match gen_cmd(cmd, jc, sname, fname) {
                Err(_) => {},
                Ok(p) => {
                    let f2 = next_fname(cmd, fname);
                    let head = cmd_mints(cmd, jc);
                    let rest = unit_mints(lines.drop_first(), sname, f2, p.0);
                    if i < head.len() {
                        assert((head + rest)[i] == head[0]);
                    } else {
                        assert((head + rest)[i] == rest[i - head.len()]);
                        lemma_unit_mint_lower(lines.drop_first(), sname, f2, p.0, i - head.len());
                    }
                },
            },
        }
    }
}

/// Every counter value minted during a unit's fold lies strictly below
/// the counter the fold hands on.
pub proof fn lemma_unit_mint_upper(
    lines: Seq<Seq<char>>,
    sname: Seq<char>,
    fname: Seq<char>,
    jc: nat,
    i: int,
)
    requires
        0 <= i < unit_mints(lines, sname, fname, jc).len(),
        unit_fold(lines, sname, fname, jc, Seq::empty()) matches Ok(p),
    ensures
        unit_fold(lines, sname, fname, jc, Seq::empty()) matches Ok(p) ==> unit_mints(
            lines,
            sname,
            fname,
            jc,
        )[i].jc < p.1,
    decreases lines.len(),
{
    let l = clean_line(lines[0]);
    if tokens_of(l).len() == 0 {
        lemma_unit_mint_upper(lines.drop_first(), sname, fname, jc, i);
    } else {
        match parse_cmd(l) {
            Err(_) => {},
            Ok(cmd) => match gen_cmd(cmd, jc, sname, fname) {
                Err(_) => {},
                Ok(p) => {
                    let f2 = next_fname(cmd, fname);
                    let head = cmd_mints(cmd, jc);
                    let rest = unit_mints(lines.drop_first(), sname, f2, p.0);
                    crate::translate::lemma_unit_fold_acc(
                        lines.drop_first(),
                        sname,
                        f2,
                        p.0,
                        Seq::empty() + crate::instr::render(p.1) + "\n"@,
                    );
                    crate::translate::lemma_unit_fold_jc(
                        lines.drop_first(),
                        sname,
                        f2,
                        p.0,
                        Seq::empty(),
                    );
                    if i < head.len() {
                        assert((head + rest)[i] == head[0]);
                        assert(head[0].jc == jc && p.0 == jc + 1);
                    } else {
                        assert((head + rest)[i] == rest[i - head.len()]);
                        lemma_unit_mint_upper(lines.drop_first(), sname, f2, p.0, i - head.len());
                    }
                },
            },
        }
    }
}

/// Counter values minted during a unit's fold strictly increase in
/// emission order.
pub proof fn lemma_unit_mints_increasing(
    lines: Seq<Seq<char>>,
    sname: Seq<char>,
    fname: Seq<char>,
    jc: nat,
    i: int,
    j: int,
)
    requires
        0 <= i < j < unit_mints(lines, sname, fname, jc).len(),
    ensures
        unit_mints(lines, sname, fname, jc)[i].jc < unit_mints(lines, sname, fname, jc)[j].jc,
    decreases lines.len(),
{
    let l = clean_line(lines[0]);
    if tokens_of(l).len() == 0 {
        lemma_unit_mints_increasing(lines.drop_first(), sname, fname, jc, i, j);
    } else {
        match parse_cmd(l) {
            Err(_) => {},
            Ok(cmd) => match gen_cmd(cmd, jc, sname, fname) {
                Err(_) => {},
                Ok(p) => {
                    let f2 = next_fname(cmd, fname);
                    let head = cmd_mints(cmd, jc);
                    let rest = unit_mints(lines.drop_first(), sname, f2, p.0);
                    if i < head.len() {
                        assert((head + rest)[i] == head[0]);
                        assert(head[0].jc == jc && p.0 == jc + 1);
                        assert((head + rest)[j] == rest[j - head.len()]);
                        lemma_unit_mint_lower(lines.drop_first(), sname, f2, p.0, j - head.len());
                    } else {
                        assert((head + rest)[i] == rest[i - head.len()]);
                        assert((head + rest)[j] == rest[j - head.len()]);
                        lemma_unit_mints_increasing(
                            lines.drop_first(),
                            sname,
                            f2,
                            p.0,
                            i - head.len(),
                            j - head.len(),
                        );
                    }
                },
            },
        }
    }
}

/// The branch label of a comparison holds no dollar sign.
proof fn lemma_jmp_label_no_dollar(jc: nat, i: int)
    requires
        0 <= i < jmp_false_label(jc).len(),
    ensures
        jmp_false_label(jc)[i] != '$',
{
    reveal_strlit("JMP_FALSE");
    lemma_dec_rep_digits(jc);
    if i >= "JMP_FALSE"@.len() {
        assert(jmp_false_label(jc)[i] == dec_rep(jc)[i - "JMP_FALSE"@.len()]);
        assert(is_digit_char(dec_rep(jc)[i - "JMP_FALSE"@.len()]));
    }
}

/// Labels minted at distinct counter values have distinct texts.
pub proof fn lemma_mint_text_injective(m1: LabelMint, m2: LabelMint)
    requires
        m1.jc != m2.jc,
    ensures
        mint_text(m1) != mint_text(m2),
{
    lemma_dec_rep_digits(m1.jc);
    lemma_dec_rep_digits(m2.jc);
    if !m1.is_ret && !m2.is_ret {
        if mint_text(m1) == mint_text(m2) {
            lemma_concat_cancel_left("JMP_FALSE"@, dec_rep(m1.jc), dec_rep(m2.jc));
            lemma_dec_rep_injective(m1.jc, m2.jc);
        }
    } else if m1.is_ret && m2.is_ret {
        if mint_text(m1) == mint_text(m2) {
            reveal_strlit("$ret.");
            let x = m1.fname + "$ret."@;
            let y = m2.fname + "$ret."@;
            assert(x.last() == '.');
            assert(y.last() == '.');
            assert(!is_digit_char('.'));
            lemma_digit_suffix_unique(x, y, dec_rep(m1.jc), dec_rep(m2.jc));
            lemma_dec_rep_injective(m1.jc, m2.jc);
        }
    } else {
        let mr = if m1.is_ret {
            m1
        } else {
            m2
        };
        let mj = if m1.is_ret {
            m2
        } else {
            m1
        };
        if mint_text(m1) == mint_text(m2) {
            reveal_strlit("$ret.");
            let i = mr.fname.len() as int;
            assert(ret_label(mr.fname, mr.jc)[i] == '$');
            assert(i < jmp_false_label(mj.jc).len());
            lemma_jmp_label_no_dollar(mj.jc, i);
        }
    }
}

/// All labels minted during one unit's translation are pairwise
/// distinct.
pub proof fn lemma_unit_labels_distinct(
    lines: Seq<Seq<char>>,
    sname: Seq<char>,
    fname: Seq<char>,
    jc: nat,
)
    ensures
        forall|i: int, j: int|
            0 <= i < j < unit_mints(lines, sname, fname, jc).len() ==> mint_text(
                #[trigger] unit_mints(lines, sname, fname, jc)[i],
            ) != mint_text(#[trigger] unit_mints(lines, sname, fname, jc)[j]),
{
    let ms = unit_mints(lines, sname, fname, jc);
    assert forall|i: int, j: int| 0 <= i < j < ms.len() implies mint_text(#[trigger] ms[i])
        != mint_text(#[trigger] ms[j]) by {
        lemma_unit_mints_increasing(lines, sname, fname, jc, i, j);
        lemma_mint_text_injective(ms[i], ms[j]);
    }
}

/// All labels minted while folding a program's units from a starting
/// counter, in emission order.
pub open spec fn program_mints(units: Seq<UnitV>, jc: nat) -> Seq<LabelMint>
    decreases units.len(),
{
    if units.len() == 0 {
        Seq::empty()
    } else {
        let head = unit_mints(units[0].lines, units[0].static_name, "System"@, jc);
        match unit_fold(units[0].lines, units[0].static_name, "System"@, jc, Seq::empty()) {
            Err(_) => head,
            Ok(p) => head + program_mints(units.drop_first(), p.1),
        }
    }
}

/// Every counter value minted during a program's fold is at least the
/// starting counter.
pub proof fn lemma_program_mint_lower(units: Seq<UnitV>, jc: nat, i: int)
    requires
        0 <= i < program_mints(units, jc).len(),
    ensures
        jc <= program_mints(units, jc)[i].jc,
    decreases units.len(),
{
    let head = unit_mints(units[0].lines, units[0].static_name, "System"@, jc);
    match unit_fold(units[0].lines, units[0].static_name, "System"@, jc, Seq::empty()) {
        Err(_) => {
            lemma_unit_mint_lower(units[0].lines, units[0].static_name, "System"@, jc, i);
        },
        Ok(p) => {
            let rest = program_mints(units.drop_first(), p.1);
            if i < head.len() {
                assert((head + rest)[i] == head[i]);
                lemma_unit_mint_lower(units[0].lines, units[0].static_name, "System"@, jc, i);
            } else {
                assert((head + rest)[i] == rest[i - head.len()]);
                lemma_program_mint_lower(units.drop_first(), p.1, i - head.len());
                crate::translate::lemma_unit_fold_jc(
                    units[0].lines,
                    units[0].static_name,
                    "System"@,
                    jc,
                    Seq::empty(),
                );
            }
        },
    }
}

/// Counter values minted during a program's fold strictly increase in
/// emission order, across unit boundaries too.
pub proof fn lemma_program_mints_increasing(units: Seq<UnitV>, jc: nat, i: int, j: int)
    requires
        0 <= i < j < program_mints(units, jc).len(),
    ensures
        program_mints(units, jc)[i].jc < program_mints(units, jc)[j].jc,
    decreases units.len(),
{
    let head = unit_mints(units[0].lines, units[0].static_name, "System"@, jc);
    match unit_fold(units[0].lines, units[0].static_name, "System"@, jc, Seq::empty()) {
        Err(_) => {
            lemma_unit_mints_increasing(
                units[0].lines,
                units[0].static_name,
                "System"@,
                jc,
                i,
                j,
            );
        },
        Ok(p) => {
            let rest = program_mints(units.drop_first(), p.1);
            if j < head.len() {
                assert((head + rest)[i] == head[i]);
                assert((head + rest)[j] == head[j]);
                lemma_unit_mints_increasing(
                    units[0].lines,
                    units[0].static_name,
                    "System"@,
                    jc,
                    i,
                    j,
                );
            } else if i < head.len() {
                assert((head + rest)[i] == head[i]);
                assert((head + rest)[j] == rest[j - head.len()]);
                lemma_unit_mint_upper(units[0].lines, units[0].static_name, "System"@, jc, i);
                lemma_program_mint_lower(units.drop_first(), p.1, j - head.len());
            } else {
                assert((head + rest)[i] == rest[i - head.len()]);
                assert((head + rest)[j] == rest[j - head.len()]);
                lemma_program_mints_increasing(
                    units.drop_first(),
                    p.1,
                    i - head.len(),
                    j - head.len(),
                );
            }
        },
    }
}

/// All labels minted during one program translation, the bootstrap's
/// return label included when one is requested.
pub open spec fn translation_mints(units: Seq<UnitV>, with_bootstrap: bool) -> Seq<LabelMint> {
    if with_bootstrap {
        seq![LabelMint { is_ret: true, fname: "Sys.init"@, jc: 0 }] + program_mints(units, 1)
    } else {
        program_mints(units, 0)
    }
}

/// Every two labels minted during one program translation are distinct:
/// the branch labels of all comparisons are pairwise distinct, and
/// distinct from the return label of every call, across all units and
/// the bootstrap.
pub proof fn lemma_translation_labels_distinct(units: Seq<UnitV>, with_bootstrap: bool)
    ensures
        forall|i: int, j: int|
            0 <= i < j < translation_mints(units, with_bootstrap).len() ==> mint_text(
                #[trigger] translation_mints(units, with_bootstrap)[i],
            ) != mint_text(#[trigger] translation_mints(units, with_bootstrap)[j]),
{
    let ms = translation_mints(units, with_bootstrap);
    if with_bootstrap {
        let boot = seq![LabelMint { is_ret: true, fname: "Sys.init"@, jc: 0 as nat }];
        let rest = program_mints(units, 1);
        assert forall|i: int, j: int| 0 <= i < j < ms.len() implies mint_text(#[trigger] ms[i])
            != mint_text(#[trigger] ms[j]) by {
            if i == 0 {
                assert(ms[i] == boot[0]);
                assert(ms[j] == rest[j - 1]);
                lemma_program_mint_lower(units, 1, j - 1);
            } else {
                assert(ms[i] == rest[i - 1]);
                assert(ms[j] == rest[j - 1]);
                lemma_program_mints_increasing(units, 1, i - 1, j - 1);
            }
            lemma_mint_text_injective(ms[i], ms[j]);
        }
    } else {
        assert forall|i: int, j: int| 0 <= i < j < ms.len() implies mint_text(#[trigger] ms[i])
            != mint_text(#[trigger] ms[j]) by {
            lemma_program_mints_increasing(units, 0, i, j);
            lemma_mint_text_injective(ms[i], ms[j]);
        }
    }
}

} // verus!
