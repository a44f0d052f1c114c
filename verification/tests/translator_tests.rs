use vm_translator::command::{ErrKind, VMCommand};
use vm_translator::text::{parse_u16, str_eq, tokenize, u16_dec, u64_dec};
use vm_translator::translate::{
    bootstrap, strip_comment, translate_program, translate_vm, CompileTarget, SourceUnit,
};

const PUSH_TAIL: &str = "@SP\nAM=M+1\nA=A-1\nM=D";
const POP_TAIL: &str = "@R15\nM=D\n@SP\nAM=M-1\nD=M\n@R15\nA=M\nM=D";

fn lines(v: &[&str]) -> Vec<String> {
    v.iter().map(|s| s.to_string()).collect()
}

fn asm_of(line: &str, jc: u64, static_name: &str, fname: &str) -> (u64, String) {
    let cmd = VMCommand::new(&line.to_string()).expect("parse");
    cmd.to_asm(jc, static_name, fname).expect("generate")
}

#[test]
fn tokenize_splits_on_whitespace() {
    let toks = tokenize("  push \t local  3 \r");
    assert_eq!(toks, vec!["push".to_string(), "local".to_string(), "3".to_string()]);
    assert!(tokenize("   \t ").is_empty());
}

#[test]
fn str_eq_compares_characters() {
    assert!(str_eq("push", "push"));
    assert!(!str_eq("push", "pusH"));
    assert!(!str_eq("push", "pus"));
}

#[test]
fn decimal_rendering_is_exact() {
    assert_eq!(u16_dec(0), "0");
    assert_eq!(u16_dec(7), "7");
    assert_eq!(u16_dec(65535), "65535");
    assert_eq!(u64_dec(1234567890123), "1234567890123");
}

#[test]
fn parse_u16_accepts_digits_only() {
    assert_eq!(parse_u16("0"), Some(0));
    assert_eq!(parse_u16("0007"), Some(7));
    assert_eq!(parse_u16("65535"), Some(65535));
    assert_eq!(parse_u16("65536"), None);
    assert_eq!(parse_u16(""), None);
    assert_eq!(parse_u16("12a"), None);
    assert_eq!(parse_u16("-3"), None);
    assert_eq!(parse_u16("+3"), None);
}

#[test]
fn parser_classifies_each_command() {
    assert!(matches!(
        VMCommand::new(&"push constant 7".to_string()),
        Ok(VMCommand::CPush(s, 7)) if s == "constant"
    ));
    assert!(matches!(
        VMCommand::new(&"pop local 2".to_string()),
        Ok(VMCommand::CPop(s, 2)) if s == "local"
    ));
    assert!(matches!(
        VMCommand::new(&"add".to_string()),
        Ok(VMCommand::CArithmetic(s, 0)) if s == "add"
    ));
    assert!(matches!(
        VMCommand::new(&"label LOOP".to_string()),
        Ok(VMCommand::CLabel(s, 0)) if s == "LOOP"
    ));
    assert!(matches!(
        VMCommand::new(&"goto END".to_string()),
        Ok(VMCommand::CGoto(s, 0)) if s == "END"
    ));
    assert!(matches!(
        VMCommand::new(&"if-goto LOOP".to_string()),
        Ok(VMCommand::CIf(s, 0)) if s == "LOOP"
    ));
    assert!(matches!(
        VMCommand::new(&"function Main.main 2".to_string()),
        Ok(VMCommand::CFunction(s, 2)) if s == "Main.main"
    ));
    assert!(matches!(
        VMCommand::new(&"call Main.main 1".to_string()),
        Ok(VMCommand::CCall(s, 1)) if s == "Main.main"
    ));
    assert!(matches!(
        VMCommand::new(&"return".to_string()),
        Ok(VMCommand::CReturn(s, 0)) if s == "return"
    ));
}

#[test]
fn parser_rejects_unknown_commands() {
    let e = VMCommand::new(&"frobnicate 1".to_string()).unwrap_err();
    assert_eq!(e.kind, ErrKind::UnrecognizedCommand);
    assert_eq!(e.token, "frobnicate");
}

#[test]
fn parser_rejects_wrong_token_counts() {
    let e = VMCommand::new(&"push constant".to_string()).unwrap_err();
    assert_eq!(e.kind, ErrKind::MalformedOperand);
    assert_eq!(e.token, "push");
    let e = VMCommand::new(&"add 3".to_string()).unwrap_err();
    assert_eq!(e.kind, ErrKind::MalformedOperand);
    let e = VMCommand::new(&"label".to_string()).unwrap_err();
    assert_eq!(e.kind, ErrKind::MalformedOperand);
    let e = VMCommand::new(&"return now".to_string()).unwrap_err();
    assert_eq!(e.kind, ErrKind::MalformedOperand);
}

#[test]
fn parser_rejects_bad_numerals() {
    let e = VMCommand::new(&"push constant abc".to_string()).unwrap_err();
    assert_eq!(e.kind, ErrKind::MalformedOperand);
    assert_eq!(e.token, "abc");
    let e = VMCommand::new(&"push constant 70000".to_string()).unwrap_err();
    assert_eq!(e.kind, ErrKind::MalformedOperand);
    assert_eq!(e.token, "70000");
    let e = VMCommand::new(&"call Foo -1".to_string()).unwrap_err();
    assert_eq!(e.kind, ErrKind::MalformedOperand);
}

#[test]
fn push_texts_match_the_addressing_table() {
    assert_eq!(asm_of("push constant 7", 0, "F", "System").1, format!("@7\nD=A\n{PUSH_TAIL}"));
    assert_eq!(
        asm_of("push local 3", 0, "F", "System").1,
        format!("@LCL\nD=M\n@3\nA=D+A\nD=M\n{PUSH_TAIL}")
    );
    assert_eq!(
        asm_of("push argument 0", 0, "F", "System").1,
        format!("@ARG\nD=M\n@0\nA=D+A\nD=M\n{PUSH_TAIL}")
    );
    assert_eq!(
        asm_of("push this 5", 0, "F", "System").1,
        format!("@THIS\nD=M\n@5\nA=D+A\nD=M\n{PUSH_TAIL}")
    );
    assert_eq!(
        asm_of("push that 1", 0, "F", "System").1,
        format!("@THAT\nD=M\n@1\nA=D+A\nD=M\n{PUSH_TAIL}")
    );
    assert_eq!(
        asm_of("push temp 3", 0, "F", "System").1,
        format!("@5\nD=A\n@3\nA=D+A\nD=M\n{PUSH_TAIL}")
    );
    assert_eq!(asm_of("push pointer 0", 0, "F", "System").1, format!("@THIS\nD=M\n{PUSH_TAIL}"));
    assert_eq!(asm_of("push pointer 1", 0, "F", "System").1, format!("@THAT\nD=M\n{PUSH_TAIL}"));
    assert_eq!(
        asm_of("push static 4", 0, "Foo", "System").1,
        format!("@Foo.4\nD=M\n{PUSH_TAIL}")
    );
}

#[test]
fn pop_texts_cache_the_address_in_the_scratch_register() {
    assert_eq!(
        asm_of("pop local 2", 0, "F", "System").1,
        format!("@LCL\nD=M\n@2\nD=D+A\n{POP_TAIL}")
    );
    assert_eq!(
        asm_of("pop temp 1", 0, "F", "System").1,
        format!("@5\nD=A\n@1\nD=D+A\n{POP_TAIL}")
    );
    assert_eq!(asm_of("pop pointer 0", 0, "F", "System").1, format!("@THIS\nD=A\n{POP_TAIL}"));
    assert_eq!(asm_of("pop pointer 1", 0, "F", "System").1, format!("@THAT\nD=A\n{POP_TAIL}"));
    assert_eq!(asm_of("pop static 2", 0, "Bar", "System").1, format!("@Bar.2\nD=A\n{POP_TAIL}"));
}

#[test]
fn popping_a_constant_is_refused() {
    let cmd = VMCommand::new(&"pop constant 3".to_string()).expect("parse");
    let e = cmd.to_asm(0, "F", "System").unwrap_err();
    assert_eq!(e.kind, ErrKind::UnrecognizedSegment);
    assert_eq!(e.token, "constant");
}

#[test]
fn pushing_an_unknown_segment_is_refused() {
    let cmd = VMCommand::new(&"push heap 3".to_string()).expect("parse");
    let e = cmd.to_asm(0, "F", "System").unwrap_err();
    assert_eq!(e.kind, ErrKind::UnrecognizedSegment);
    assert_eq!(e.token, "heap");
}

#[test]
fn pointer_with_a_large_index_is_refused() {
    let cmd = VMCommand::new(&"push pointer 2".to_string()).expect("parse");
    let e = cmd.to_asm(0, "F", "System").unwrap_err();
    assert_eq!(e.kind, ErrKind::UnrecognizedSegment);
    assert_eq!(e.token, "pointer");
}

#[test]
fn arithmetic_texts_are_exact() {
    let (jc, t) = asm_of("add", 9, "F", "System");
    assert_eq!(jc, 9);
    assert_eq!(t, "@SP\nAM=M-1\nD=M\nA=A-1\nMD=M+D");
    assert_eq!(asm_of("sub", 0, "F", "System").1, "@SP\nAM=M-1\nD=M\nA=A-1\nMD=M-D");
    assert_eq!(asm_of("and", 0, "F", "System").1, "@SP\nAM=M-1\nD=M\nA=A-1\nMD=M&D");
    assert_eq!(asm_of("or", 0, "F", "System").1, "@SP\nAM=M-1\nD=M\nA=A-1\nMD=M|D");
    assert_eq!(asm_of("neg", 0, "F", "System").1, "@SP\nAM=M-1\nMD=-M\n@SP\nM=M+1");
    assert_eq!(asm_of("not", 0, "F", "System").1, "@SP\nAM=M-1\nMD=!M\n@SP\nM=M+1");
}

#[test]
fn comparison_mints_one_label_and_advances_the_counter() {
    let (jc, t) = asm_of("eq", 5, "F", "System");
    assert_eq!(jc, 6);
    assert_eq!(
        t,
        "@R15\nM=-1\n@SP\nAM=M-1\nD=M\nA=A-1\nD=M-D\n@JMP_FALSE5\nD;JEQ\n@R15\nM=0\n(JMP_FALSE5)\n@R15\nD=M\n@SP\nA=M-1\nM=D"
    );
    let (jc, t) = asm_of("gt", 0, "F", "System");
    assert_eq!(jc, 1);
    assert!(t.contains("D;JGT"));
    let (jc, t) = asm_of("lt", 41, "F", "System");
    assert_eq!(jc, 42);
    assert!(t.contains("@JMP_FALSE41") && t.contains("(JMP_FALSE41)") && t.contains("D;JLT"));
}

#[test]
fn flow_texts_qualify_labels_by_the_current_function() {
    assert_eq!(asm_of("label LOOP", 0, "F", "Main.main").1, "(Main.main$LOOP)");
    assert_eq!(asm_of("goto END", 0, "F", "Main.main").1, "@Main.main$END\n0;JMP");
    assert_eq!(
        asm_of("if-goto LOOP", 0, "F", "Main.main").1,
        "@SP\nAM=M-1\nD=M\n@Main.main$LOOP\nD;JNE"
    );
}

#[test]
fn function_with_no_locals_emits_only_the_marker() {
    assert_eq!(asm_of("function Foo 0", 0, "F", "System").1, "(Foo)");
}

#[test]
fn function_with_locals_emits_the_zeroing_loop() {
    assert_eq!(
        asm_of("function Foo 3", 0, "F", "System").1,
        "(Foo)\n@3\nD=A\n(Foo_rep)\n@SP\nAM=M+1\nA=A-1\nM=0\n@Foo_rep\nD=D-1;JGT"
    );
}

#[test]
fn call_text_saves_the_frame_and_mints_a_return_label() {
    let (jc, t) = asm_of("call Foo 2", 7, "F", "System");
    assert_eq!(jc, 8);
    assert_eq!(
        t,
        "@Foo$ret.7\nD=A\n@SP\nAM=M+1\nA=A-1\nM=D\n\
         @LCL\nD=M\n@SP\nAM=M+1\nA=A-1\nM=D\n\
         @ARG\nD=M\n@SP\nAM=M+1\nA=A-1\nM=D\n\
         @THIS\nD=M\n@SP\nAM=M+1\nA=A-1\nM=D\n\
         @THAT\nD=M\n@SP\nAM=M+1\nA=A-1\nM=D\n\
         @SP\nD=M\n@LCL\nM=D\n@5\nD=D-A\n@2\nD=D-A\n@ARG\nM=D\n\
         @Foo\n0;JMP\n(Foo$ret.7)"
    );
}

#[test]
fn return_text_is_the_fixed_sequence() {
    assert_eq!(
        asm_of("return", 3, "F", "System").1,
        "@LCL\nD=M\n@R13\nM=D\n@5\nA=D-A\nD=M\n@R14\nM=D\n\
         @SP\nAM=M-1\nD=M\n@ARG\nA=M\nM=D\n@ARG\nD=M\n@SP\nM=D+1\n\
         @R13\nAM=M-1\nD=M\n@THAT\nM=D\n@R13\nAM=M-1\nD=M\n@THIS\nM=D\n\
         @R13\nAM=M-1\nD=M\n@ARG\nM=D\n@R13\nAM=M-1\nD=M\n@LCL\nM=D\n\
         @R14\nA=M\n0;JMP"
    );
}

#[test]
fn strip_comment_cuts_at_the_first_double_slash() {
    assert_eq!(strip_comment("push constant 1 // hi // there"), "push constant 1 ");
    assert_eq!(strip_comment("// all comment"), "");
    assert_eq!(strip_comment("no comment"), "no comment");
    assert_eq!(strip_comment("odd / slash"), "odd / slash");
}

#[test]
fn translate_vm_skips_blank_and_comment_lines() {
    let src = lines(&["", "   ", "// setup", "push constant 1 // top", "", "pop temp 0"]);
    let (text, jc) = translate_vm(&src, "Unit", 0).expect("translate");
    assert_eq!(jc, 0);
    assert_eq!(text, format!("@1\nD=A\n{PUSH_TAIL}\n@5\nD=A\n@0\nD=D+A\n{POP_TAIL}\n"));
}

#[test]
fn translate_vm_threads_the_counter_and_function_name() {
    let src = lines(&["label TOP", "function Main.go 0", "eq", "label TOP", "call Other 0", "eq"]);
    let (text, jc) = translate_vm(&src, "Unit", 10).expect("translate");
    assert_eq!(jc, 13);
    assert!(text.starts_with("(System$TOP)\n"));
    assert!(text.contains("(Main.go)\n"));
    assert!(text.contains("(Main.go$TOP)\n"));
    assert!(text.contains("@JMP_FALSE10") && text.contains("(JMP_FALSE10)"));
    assert!(text.contains("@Other$ret.11") && text.contains("(Other$ret.11)"));
    assert!(text.contains("@JMP_FALSE12"));
}

#[test]
fn translate_vm_reports_the_first_error() {
    let src = lines(&["push constant 1", "pop constant 1", "add"]);
    let e = translate_vm(&src, "Unit", 0).unwrap_err();
    assert_eq!(e.kind, ErrKind::UnrecognizedSegment);
    assert_eq!(e.token, "constant");
}

#[test]
fn bootstrap_sets_the_stack_base_then_calls_the_entry() {
    let (text, jc) = bootstrap(0);
    assert_eq!(jc, 1);
    assert!(text.starts_with("@256\nD=A\n@SP\nM=D\n"));
    assert!(text.contains("@Sys.init$ret.0"));
    assert!(text.contains("@Sys.init\n0;JMP\n(Sys.init$ret.0)\n"));
}

#[test]
fn program_output_concatenates_units_behind_the_bootstrap() {
    let units = vec![
        SourceUnit { static_name: "Sys".to_string(), lines: lines(&["function Sys.init 0", "eq"]) },
        SourceUnit { static_name: "Main".to_string(), lines: lines(&["eq"]) },
    ];
    let out = translate_program(&units, true).expect("translate");
    let boot = bootstrap(0).0;
    assert!(out.starts_with(&boot));
    let rest = &out[boot.len()..];
    assert!(rest.starts_with("(Sys.init)\n"));
    // the bootstrap consumed counter zero; the units mint one and two
    assert!(rest.contains("(JMP_FALSE1)"));
    assert!(rest.contains("(JMP_FALSE2)"));
    assert!(!rest.contains("JMP_FALSE0"));
}

#[test]
fn program_without_bootstrap_starts_counting_at_zero() {
    let units = vec![SourceUnit { static_name: "Main".to_string(), lines: lines(&["lt"]) }];
    let out = translate_program(&units, false).expect("translate");
    assert!(out.contains("(JMP_FALSE0)"));
    assert!(!out.starts_with("@256"));
}

#[test]
fn minted_labels_are_pairwise_distinct() {
    let units = vec![
        SourceUnit {
            static_name: "A".to_string(),
            lines: lines(&["eq", "gt", "call Foo 0", "lt"]),
        },
        SourceUnit { static_name: "B".to_string(), lines: lines(&["eq", "call Foo 1"]) },
    ];
    let out = translate_program(&units, true).expect("translate");
    let mut minted: Vec<&str> = out
        .lines()
        .filter(|l| l.starts_with('(') && (l.contains("JMP_FALSE") || l.contains("$ret.")))
        .collect();
    let total = minted.len();
    assert_eq!(total, 7);
    minted.sort();
    minted.dedup();
    assert_eq!(minted.len(), total);
}

#[test]
fn an_error_in_a_later_unit_fails_the_whole_program() {
    let units = vec![
        SourceUnit { static_name: "A".to_string(), lines: lines(&["push constant 1"]) },
        SourceUnit { static_name: "B".to_string(), lines: lines(&["mystery"]) },
    ];
    let e = translate_program(&units, false).unwrap_err();
    assert_eq!(e.kind, ErrKind::UnrecognizedCommand);
    assert_eq!(e.token, "mystery");
}

#[test]
fn each_unit_starts_in_the_default_scope() {
    let units = vec![
        SourceUnit {
            static_name: "A".to_string(),
            lines: lines(&["function A.go 0", "label IN"]),
        },
        SourceUnit { static_name: "B".to_string(), lines: lines(&["label OUT", "push static 1"]) },
    ];
    let out = translate_program(&units, false).expect("translate");
    assert!(out.contains("(A.go$IN)"));
    assert!(out.contains("(System$OUT)"), "a label before any function uses the default scope");
    assert!(out.contains("@B.1"), "static accesses use the unit's own name");
}

#[test]
fn compile_target_derives_path_and_static_name() {
    let t = CompileTarget::new(&"proj/src".to_string(), &"Main".to_string());
    assert_eq!(t.vm_file, "proj/src/Main.vm");
    assert_eq!(t.static_name, "Main");
}
