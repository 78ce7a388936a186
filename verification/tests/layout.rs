use humility_cmd_tasks::registers::{format_registers, RegisterValue};
use humility_cmd_tasks::stack::{format_stack, FrameSymbol, InlinedFrame, SourceLine, StackFrame};

fn regs(values: [u32; 16]) -> Vec<RegisterValue> {
    let names = ["R0", "R1", "R2", "R3", "R4", "R5", "R6", "R7", "R8", "R9", "R10", "R11", "R12", "SP", "LR", "PC"];
    names
        .iter()
        .zip(values.iter())
        .map(|(n, v)| RegisterValue { name: n.to_string(), value: *v })
        .collect()
}

#[test]
fn registers_four_to_a_line() {
    let values = [
        0x20005fc8, 0x0000000c, 0x00000000, 0x20005fd8, 0x20005fc8, 0x0000000c, 0x00000000, 0x00000000,
        0x08027154, 0x00000000, 0xfffffe00, 0x00000001, 0x00000000, 0x20005fa0, 0x08026137, 0x08026e42,
    ];
    let mut s = String::new();
    format_registers(&mut s, &regs(values), false);
    let expected = "   |\n   +--->   R0 = 0x20005fc8   R1 = 0x0000000c   R2 = 0x00000000   R3 = 0x20005fd8\n           R4 = 0x20005fc8   R5 = 0x0000000c   R6 = 0x00000000   R7 = 0x00000000\n           R8 = 0x08027154   R9 = 0x00000000  R10 = 0xfffffe00  R11 = 0x00000001\n          R12 = 0x00000000   SP = 0x20005fa0   LR = 0x08026137   PC = 0x08026e42\n";
    assert_eq!(s, expected);
}

#[test]
fn registers_linked_below_show_the_bar() {
    let mut s = String::new();
    format_registers(&mut s, &regs([0; 16]), true);
    let lines: Vec<&str> = s.lines().collect();
    assert_eq!(lines.len(), 5);
    assert!(lines[2].starts_with("   |       R4 = "));
    assert!(lines[4].starts_with("   |      R12 = "));
}

#[test]
fn no_registers() {
    let mut s = String::new();
    format_registers(&mut s, &Vec::new(), false);
    assert_eq!(s, "   |\n   +--->");
}

fn src(path: &str, line: u64) -> Option<SourceLine> {
    Some(SourceLine { path: path.to_string(), line })
}

fn user_leds_stack() -> Vec<StackFrame> {
    vec![
        StackFrame {
            cfa: 0x20005fc0,
            pc: 0x08026e42,
            inlined: None,
            sym: Some(FrameSymbol {
                name: "userlib::sys_recv_stub".to_string(),
                source: src("/home/bmc/hubris/sys/userlib/src/lib.rs", 288),
            }),
        },
        StackFrame {
            cfa: 0x20006000,
            pc: 0x08026136,
            inlined: Some(vec![
                InlinedFrame {
                    addr: 0x08026128,
                    name: "userlib::sys_recv".to_string(),
                    source: src("/home/bmc/hubris/sys/userlib/src/lib.rs", 236),
                },
                InlinedFrame {
                    addr: 0x08026128,
                    name: "idol_runtime::dispatch".to_string(),
                    source: src("/home/bmc/.cargo/git/checkouts/idolatry-1ebf1c2fd2f30300/6d18e14/runtime/src/lib.rs", 137),
                },
            ]),
            sym: Some(FrameSymbol {
                name: "main".to_string(),
                source: src("/home/bmc/hubris/drv/user-leds/src/main.rs", 110),
            }),
        },
    ]
}

#[test]
fn stack_backtrace() {
    let mut s = String::new();
    format_stack(&mut s, &user_leds_stack(), false, false);
    let expected = "   |\n   +--->  0x20005fc0 0x08026e42 userlib::sys_recv_stub\n          0x20006000 0x08026128 userlib::sys_recv\n          0x20006000 0x08026128 idol_runtime::dispatch\n          0x20006000 0x08026136 main\n\n";
    assert_eq!(s, expected);
}

#[test]
fn stack_backtrace_with_lines() {
    let mut s = String::new();
    format_stack(&mut s, &user_leds_stack(), true, false);
    let expected = "   |\n   +--->  0x20005fc0 0x08026e42 userlib::sys_recv_stub\n                     @ /home/bmc/hubris/sys/userlib/src/lib.rs:288\n          0x20006000 0x08026128 userlib::sys_recv\n                     @ /home/bmc/hubris/sys/userlib/src/lib.rs:236\n          0x20006000 0x08026128 idol_runtime::dispatch\n                     @ /home/bmc/.cargo/git/checkouts/idolatry-1ebf1c2fd2f30300/6d18e14/runtime/src/lib.rs:137\n          0x20006000 0x08026136 main\n                     @ /home/bmc/hubris/drv/user-leds/src/main.rs:110\n\n";
    assert_eq!(s, expected);
}

#[test]
fn stack_backtrace_linked_below() {
    let frames = vec![StackFrame { cfa: 0x10, pc: 0x20, inlined: None, sym: None }, StackFrame { cfa: 0x30, pc: 0x40, inlined: None, sym: None }];
    let mut s = String::new();
    format_stack(&mut s, &frames, true, true);
    assert_eq!(s, "   |\n   +--->  0x00000010 0x00000020\n   |      0x00000030 0x00000040\n   |\n");
}

#[test]
fn empty_backtrace() {
    let mut s = String::new();
    format_stack(&mut s, &Vec::new(), false, false);
    assert_eq!(s, "   |\n   +--->  \n");
}
