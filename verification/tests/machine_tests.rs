//! Runs the emitted assembly on a small simulator of the target machine
//! and checks the stack effects the generator is meant to produce.

use std::collections::HashMap;
use vm_translator::translate::{bootstrap, translate_vm};

const SP: usize = 0;
const LCL: usize = 1;
const ARG: usize = 2;
const THIS: usize = 3;
const THAT: usize = 4;

struct Sim {
    mem: Vec<u16>,
    a: u16,
    d: u16,
    pc: usize,
    prog: Vec<String>,
    syms: HashMap<String, u16>,
    next_var: u16,
}

fn build(text: &str) -> Sim {
    let prog: Vec<String> =
        text.lines().filter(|l| !l.trim().is_empty()).map(|l| l.trim().to_string()).collect();
    let mut syms = HashMap::new();
    for (name, addr) in [
        ("SP", 0u16),
        ("LCL", 1),
        ("ARG", 2),
        ("THIS", 3),
        ("THAT", 4),
        ("R13", 13),
        ("R14", 14),
        ("R15", 15),
    ] {
        syms.insert(name.to_string(), addr);
    }
    for (i, line) in prog.iter().enumerate() {
        if line.starts_with('(') {
            let name = line.trim_start_matches('(').trim_end_matches(')');
            syms.insert(name.to_string(), i as u16);
        }
    }
    Sim { mem: vec![0; 65536], a: 0, d: 0, pc: 0, prog, syms, next_var: 16 }
}

fn comp(sim: &Sim, c: &str) -> u16 {
    let a = sim.a;
    let d = sim.d;
    let m = sim.mem[a as usize];
    match c {
        "0" => 0,
        "-1" => 0xffff,
        "D" => d,
        "A" => a,
        "M" => m,
        "!M" => !m,
        "-M" => 0u16.wrapping_sub(m),
        "D+1" => d.wrapping_add(1),
        "D-1" => d.wrapping_sub(1),
        "A-1" => a.wrapping_sub(1),
        "M+1" => m.wrapping_add(1),
        "M-1" => m.wrapping_sub(1),
        "D+A" => d.wrapping_add(a),
        "D-A" => d.wrapping_sub(a),
        "M+D" => m.wrapping_add(d),
        "M-D" => m.wrapping_sub(d),
        "M&D" => m & d,
        "M|D" => m | d,
        other => panic!("unknown computation: {other}"),
    }
}

fn step(sim: &mut Sim) {
    let line = sim.prog[sim.pc].clone();
    if line.starts_with('(') {
        sim.pc += 1;
        return;
    }
    if let Some(sym) = line.strip_prefix('@') {
        if let Ok(n) = sym.parse::<u16>() {
            sim.a = n;
        } else if let Some(&addr) = sim.syms.get(sym) {
            sim.a = addr;
        } else {
            let addr = sim.next_var;
            sim.next_var += 1;
            sim.syms.insert(sym.to_string(), addr);
            sim.a = addr;
        }
        sim.pc += 1;
        return;
    }
    let (dest, rest) = match line.split_once('=') {
        Some((d, r)) => (d, r),
        None => ("", line.as_str()),
    };
    let (c, jump) = match rest.split_once(';') {
        Some((c, j)) => (c, j),
        None => (rest, ""),
    };
    let v = comp(sim, c);
    let old_a = sim.a;
    if dest.contains('M') {
        sim.mem[old_a as usize] = v;
    }
    if dest.contains('A') {
        sim.a = v;
    }
    if dest.contains('D') {
        sim.d = v;
    }
    let taken = match jump {
        "" => false,
        "JMP" => true,
        "JEQ" => v == 0,
        "JNE" => v != 0,
        "JGT" => (v as i16) > 0,
        "JLT" => (v as i16) < 0,
        "JGE" => (v as i16) >= 0,
        "JLE" => (v as i16) <= 0,
        other => panic!("unknown jump: {other}"),
    };
    if taken {
        sim.pc = sim.a as usize;
    } else {
        sim.pc += 1;
    }
}

fn run(sim: &mut Sim) {
    let mut steps = 0;
    while sim.pc < sim.prog.len() {
        step(sim);
        steps += 1;
        assert!(steps < 100_000, "program did not halt");
    }
}

fn translate(srcs: &[&str], jc: u64) -> String {
    let lines: Vec<String> = srcs.iter().map(|s| s.to_string()).collect();
    translate_vm(&lines, "Unit", jc).expect("translate").0
}

fn exec(srcs: &[&str], sp: u16) -> Sim {
    let mut sim = build(&translate(srcs, 0));
    sim.mem[SP] = sp;
    run(&mut sim);
    sim
}

#[test]
fn push_constants_and_add_leaves_their_sum() {
    let sim = exec(&["push constant 7", "push constant 8", "add"], 256);
    assert_eq!(sim.mem[SP], 257, "net stack-height change must be one");
    assert_eq!(sim.mem[256], 15);
}

#[test]
fn binary_ops_compute_twos_complement_results() {
    let sim = exec(&["push constant 3", "push constant 5", "sub"], 256);
    assert_eq!(sim.mem[256], 3u16.wrapping_sub(5));
    assert_eq!(sim.mem[SP], 257);
    let sim = exec(&["push constant 65535", "push constant 1", "add"], 256);
    assert_eq!(sim.mem[256], 0, "addition wraps at sixteen bits");
    let sim = exec(&["push constant 12", "push constant 10", "and"], 256);
    assert_eq!(sim.mem[256], 8);
    let sim = exec(&["push constant 12", "push constant 10", "or"], 256);
    assert_eq!(sim.mem[256], 14);
}

#[test]
fn unary_ops_keep_the_stack_height() {
    let sim = exec(&["push constant 5", "neg"], 256);
    assert_eq!(sim.mem[SP], 257);
    assert_eq!(sim.mem[256], 0u16.wrapping_sub(5));
    let sim = exec(&["push constant 0", "not"], 256);
    assert_eq!(sim.mem[256], 0xffff);
}

#[test]
fn eq_leaves_the_true_sentinel_on_equal_words() {
    let sim = exec(&["push constant 21", "push constant 21", "eq"], 256);
    assert_eq!(sim.mem[256], 0xffff, "equal words must leave all bits set");
    assert_eq!(sim.mem[SP], 257);
    let sim = exec(&["push constant 21", "push constant 22", "eq"], 256);
    assert_eq!(sim.mem[256], 0, "unequal words must leave zero");
    assert_eq!(sim.mem[SP], 257);
}

#[test]
fn gt_and_lt_follow_the_signed_order() {
    let sim = exec(&["push constant 9", "push constant 4", "gt"], 256);
    assert_eq!(sim.mem[256], 0xffff);
    let sim = exec(&["push constant 4", "push constant 9", "gt"], 256);
    assert_eq!(sim.mem[256], 0);
    let sim = exec(&["push constant 4", "push constant 9", "lt"], 256);
    assert_eq!(sim.mem[256], 0xffff);
}

#[test]
fn push_then_pop_restores_the_stack_and_the_cell() {
    for (setup, addr) in [
        (vec!["push local 2", "pop local 2"], 1000 + 2),
        (vec!["push argument 1", "pop argument 1"], 1100 + 1),
        (vec!["push this 0", "pop this 0"], 1200),
        (vec!["push that 3", "pop that 3"], 1300 + 3),
        (vec!["push temp 4", "pop temp 4"], 5 + 4),
    ] {
        let mut sim = build(&translate(&setup, 0));
        sim.mem[SP] = 260;
        sim.mem[LCL] = 1000;
        sim.mem[ARG] = 1100;
        sim.mem[THIS] = 1200;
        sim.mem[THAT] = 1300;
        sim.mem[addr] = 4242;
        run(&mut sim);
        assert_eq!(sim.mem[SP], 260, "stack height must be restored");
        assert_eq!(sim.mem[addr], 4242, "the popped value must stand at its destination");
    }
}

#[test]
fn push_then_pop_static_round_trips_through_the_named_variable() {
    let mut sim = build(&translate(&["push constant 77", "pop static 3", "push static 3"], 0));
    sim.mem[SP] = 256;
    run(&mut sim);
    assert_eq!(sim.mem[SP], 257);
    assert_eq!(sim.mem[256], 77);
    let addr = sim.syms["Unit.3"] as usize;
    assert_eq!(sim.mem[addr], 77);
}

#[test]
fn pointer_segment_reaches_the_base_registers() {
    let mut sim = build(&translate(&["push constant 9000", "pop pointer 0"], 0));
    sim.mem[SP] = 256;
    run(&mut sim);
    assert_eq!(sim.mem[THIS], 9000);
    assert_eq!(sim.mem[SP], 256);
}

#[test]
fn function_entry_zeroes_exactly_its_local_count() {
    let mut sim = build(&translate(&["function Foo 3"], 0));
    sim.mem[SP] = 300;
    sim.mem[300] = 7;
    sim.mem[301] = 7;
    sim.mem[302] = 7;
    sim.mem[303] = 7;
    run(&mut sim);
    assert_eq!(sim.mem[SP], 303, "stack height must grow by the local count");
    assert_eq!(sim.mem[300], 0);
    assert_eq!(sim.mem[301], 0);
    assert_eq!(sim.mem[302], 0);
    assert_eq!(sim.mem[303], 7, "the word past the locals must stand untouched");
}

#[test]
fn call_then_return_restores_the_frame() {
    let program = [
        "function Foo 0",
        "push constant 99",
        "return",
        "function Main.run 0",
        "push constant 10",
        "push constant 20",
        "call Foo 2",
    ];
    let mut sim = build(&format!("@Main.run\n0;JMP\n{}", translate(&program, 0)));
    sim.mem[SP] = 256;
    sim.mem[LCL] = 2000;
    sim.mem[ARG] = 2100;
    sim.mem[THIS] = 2200;
    sim.mem[THAT] = 2300;
    run(&mut sim);
    // the two arguments began at 256; after the return the stack holds
    // exactly the returned value in their place
    assert_eq!(sim.mem[SP], 257, "stack pointer must equal the callee's argument base plus one");
    assert_eq!(sim.mem[256], 99, "the return value must stand at the caller's stack top");
    assert_eq!(sim.mem[LCL], 2000, "the caller's local base must be restored");
    assert_eq!(sim.mem[ARG], 2100, "the caller's argument base must be restored");
    assert_eq!(sim.mem[THIS], 2200);
    assert_eq!(sim.mem[THAT], 2300);
}

#[test]
fn bootstrap_initializes_the_stack_before_the_entry_call() {
    let (boot, _) = bootstrap(0);
    let unit = translate(&["function Sys.init 0", "push constant 1"], 1);
    let mut sim = build(&format!("{boot}{unit}"));
    run(&mut sim);
    assert_eq!(sim.mem[256 + 5], 1, "the entry function runs on the initialized stack");
    assert_eq!(sim.mem[SP], 262, "five saved frame words then one pushed constant");
    assert_eq!(sim.mem[LCL], 261);
}

#[test]
fn flow_commands_drive_a_countdown_loop() {
    let program = [
        "push constant 3",
        "pop static 0",
        "push constant 0",
        "pop static 1",
        "label LOOP",
        "push static 0",
        "if-goto BODY",
        "goto END",
        "label BODY",
        "push static 1",
        "push static 0",
        "add",
        "pop static 1",
        "push static 0",
        "push constant 1",
        "sub",
        "pop static 0",
        "goto LOOP",
        "label END",
        "push static 1",
    ];
    let mut sim = build(&translate(&program, 0));
    sim.mem[SP] = 256;
    run(&mut sim);
    assert_eq!(sim.mem[SP], 257);
    assert_eq!(sim.mem[256], 6, "the loop must add three, two and one");
}

#[test]
fn nested_calls_preserve_each_frame() {
    let program = [
        "function Lib.twice 1",
        "push argument 0",
        "push argument 0",
        "add",
        "pop local 0",
        "push local 0",
        "return",
        "function Main.run 0",
        "push constant 2",
        "call Lib.twice 1",
    ];
    let text = translate(&program, 0);
    let mut sim = build(&format!("@Main.run\n0;JMP\n{text}"));
    sim.mem[SP] = 310;
    sim.mem[LCL] = 310;
    sim.mem[ARG] = 300;
    run(&mut sim);
    assert_eq!(sim.mem[SP], 311);
    assert_eq!(sim.mem[310], 4, "the callee must leave twice its argument");
    assert_eq!(sim.mem[LCL], 310);
    assert_eq!(sim.mem[ARG], 300);
}
