use humility_cmd_tasks::fault::FaultInfo;
use humility_cmd_tasks::listing::{
    plan_pass, records_ok, render_pass, shorten_name, task_address, task_selected, task_timer, PassPlan,
    TaskRecord, TasksOptions,
};
use humility_cmd_tasks::registers::RegisterValue;
use humility_cmd_tasks::stack::StackFrame;
use humility_cmd_tasks::state::{SchedState, TaskState};
use humility_cmd_tasks::task_id::TaskId;

const NAMES: [&str; 12] = [
    "jefe", "rcc_driver", "gpio_driver", "usart_driver", "i2c_driver", "spi_driver", "user_leds", "pong", "ping",
    "hiffy", "hf", "idle",
];

fn names() -> Vec<String> {
    NAMES.iter().map(|s| s.to_string()).collect()
}

fn options() -> TasksOptions {
    TasksOptions { registers: false, stack: false, line: false, spin: false, verbose: false, task: None }
}

fn record(index: u32, generation: u32, priority: u8, state: TaskState) -> TaskRecord {
    TaskRecord {
        index,
        module: Some(NAMES[index as usize].to_string()),
        generation,
        priority,
        state,
        address: 0x2000_0000 + index * 0x40,
        irqs: Vec::new(),
        deadline: None,
        to_post: 0,
        notmask: 0,
        panic_message: Vec::new(),
        registers: Vec::new(),
        stack: Ok(Vec::new()),
        dump: String::new(),
    }
}

const TICKS: u64 = 1764993;

fn system() -> Vec<TaskRecord> {
    let recv = TaskState::Healthy(SchedState::InRecv(None));
    let kernel_recv = TaskState::Healthy(SchedState::InRecv(Some(TaskId::kernel())));
    let mut rs = Vec::new();
    let mut jefe = record(0, 0, 0, recv);
    jefe.notmask = 0b11;
    jefe.deadline = Some(TICKS + 7);
    jefe.to_post = 0b10;
    rs.push(jefe);
    rs.push(record(1, 0, 1, recv));
    rs.push(record(2, 0, 2, recv));
    let mut usart = record(3, 0, 2, recv);
    usart.notmask = 0b1;
    usart.irqs = vec![(0b1, 39)];
    rs.push(usart);
    rs.push(record(4, 0, 2, recv));
    rs.push(record(5, 0, 2, recv));
    rs.push(record(6, 0, 2, recv));
    let mut pong = record(
        7,
        0,
        3,
        TaskState::Faulted { fault: FaultInfo::Injected(TaskId(0)), original_state: SchedState::InRecv(None) },
    );
    pong.notmask = 0b1;
    rs.push(pong);
    rs.push(record(8, 14190, 4, TaskState::Healthy(SchedState::InSend(TaskId(7)))));
    let mut hiffy = record(9, 0, 3, kernel_recv);
    hiffy.notmask = 0b1;
    hiffy.deadline = Some(TICKS + 7);
    hiffy.to_post = 0b1;
    rs.push(hiffy);
    let mut hf = record(10, 0, 3, kernel_recv);
    hf.notmask = 0b1;
    hf.deadline = Some(TICKS + 18);
    hf.to_post = 0b1;
    rs.push(hf);
    rs.push(record(11, 0, 5, TaskState::Healthy(SchedState::Runnable)));
    rs
}

const LISTING: &str = "system time = 1764993
ID TASK                 GEN PRI STATE    
 0 jefe                   0   0 recv, notif: bit0 bit1(T+7)
 1 rcc_driver             0   1 recv
 2 gpio_driver            0   2 recv
 3 usart_driver           0   2 recv, notif: bit0(irq39)
 4 i2c_driver             0   2 recv
 5 spi_driver             0   2 recv
 6 user_leds              0   2 recv
 7 pong                   0   3 FAULT: killed by jefe/gen0 (was: recv, notif: bit0)
 8 ping               14190   4 wait: send to pong/gen0
 9 hiffy                  0   3 notif: bit0(T+7)
10 hf                     0   3 notif: bit0(T+18)
11 idle                   0   5 RUNNING
";

#[test]
fn whole_listing() {
    let rs = system();
    assert!(records_ok(&None, &rs, TICKS));
    let pass = render_pass(&options(), &names(), &rs, TICKS, 0x2000_0000 + 11 * 0x40, false);
    assert_eq!(pass.text, LISTING);
    assert!(!pass.found);
    assert!(pass.error.is_none());
}

#[test]
fn one_task_asked_for() {
    let mut opts = options();
    opts.task = Some("ping".to_string());
    let rs = system();
    let pass = render_pass(&opts, &names(), &rs, TICKS, 0, false);
    assert_eq!(
        pass.text,
        "system time = 1764993\nID TASK                 GEN PRI STATE    \n 8 ping               14190   4 wait: send to pong/gen0\n"
    );
    assert!(pass.found);
    assert!(pass.error.is_none());
}

#[test]
fn task_asked_for_that_is_not_there() {
    let mut opts = options();
    opts.task = Some("pang".to_string());
    let rs = system();
    let pass = render_pass(&opts, &names(), &rs, TICKS, 0, false);
    assert_eq!(pass.text, "system time = 1764993\nID TASK                 GEN PRI STATE    \n");
    assert!(!pass.found);
    assert_eq!(pass.error, Some("\"pang\" is not a valid task".to_string()));
    let again = render_pass(&opts, &names(), &rs, TICKS, 0, true);
    assert!(again.found);
    assert!(again.error.is_none());
}

#[test]
fn long_names_are_shortened_with_a_note() {
    let mut r = record(0, 0, 1, TaskState::Healthy(SchedState::Stopped));
    r.module = Some("sequencer_api_server".to_string());
    let mut unknown = record(1, 2, 1, TaskState::Healthy(SchedState::Runnable));
    unknown.module = None;
    let pass = render_pass(&options(), &names(), &vec![r, unknown], 5, 0, false);
    assert_eq!(
        pass.text,
        "system time = 5\nID TASK                 GEN PRI STATE    \n 0 sequencer_api_…        0   1 not started\n 1 <unknown>              2   1 ready\nNote: task names were truncated to fit. Use humility manifest to see them.\n"
    );
}

#[test]
fn shortening_names() {
    assert_eq!(shorten_name("idle"), ("idle".to_string(), false));
    assert_eq!(shorten_name("exactly_14_chr"), ("exactly_14_chr".to_string(), false));
    assert_eq!(shorten_name("exactly_15_char"), ("exactly_15_cha…".to_string(), true));
    assert_eq!(shorten_name("ééééééééé"), ("ééééééé…".to_string(), true));
}

#[test]
fn unknown_module_is_selected_by_its_placeholder() {
    assert!(task_selected(&None, &None));
    assert!(task_selected(&Some("<unknown>".to_string()), &None));
    assert!(!task_selected(&Some("idle".to_string()), &None));
    assert!(task_selected(&Some("idle".to_string()), &Some("idle".to_string())));
    assert!(!task_selected(&Some("idle".to_string()), &Some("idler".to_string())));
}

#[test]
fn registers_stack_and_record_beneath_a_task() {
    let mut opts = options();
    opts.registers = true;
    opts.stack = true;
    opts.verbose = true;
    let mut r = record(6, 0, 2, TaskState::Healthy(SchedState::Stopped));
    r.registers = (0..16).map(|i| RegisterValue { name: format!("R{}", i), value: i }).collect();
    r.stack = Ok(vec![StackFrame { cfa: 1, pc: 2, inlined: None, sym: None }]);
    r.dump = "Task {}".to_string();
    let pass = render_pass(&opts, &names(), &vec![r], 0, 0, false);
    let text = pass.text;
    assert!(text.contains(" 6 user_leds              0   2 not started\n   |\n   +--->  0x00000001 0x00000002\n   |\n   |\n   +--->   R0 = 0x00000000"));
    assert!(text.ends_with("   |\n   +-----------> Task {}\n\n"));
}

#[test]
fn registers_alone_end_with_a_blank_line() {
    let mut opts = options();
    opts.registers = true;
    let mut r = record(0, 0, 0, TaskState::Healthy(SchedState::Runnable));
    r.registers = (0..16).map(|i| RegisterValue { name: format!("R{}", i), value: i }).collect();
    let pass = render_pass(&opts, &names(), &vec![r], 0, 0, false);
    assert!(pass.text.ends_with("R15 = 0x0000000f\n\n"));
}

#[test]
fn failed_unwind_is_reported() {
    let mut opts = options();
    opts.stack = true;
    let mut r = record(0, 0, 0, TaskState::Healthy(SchedState::Runnable));
    r.stack = Err("bad frame".to_string());
    let pass = render_pass(&opts, &names(), &vec![r], 0, 0, false);
    assert!(pass.text.ends_with("ready\n   stack unwind failed: bad frame \n"));
}

#[test]
fn timers_count_down_from_now() {
    assert_eq!(task_timer(Some(107), 0b10, 100), Some((7, 0b10)));
    assert_eq!(task_timer(Some(90), 0b1, 100), Some((-10, 0b1)));
    assert_eq!(task_timer(None, 0b1, 100), None);
}

#[test]
fn records_with_timers_that_overflow_are_refused() {
    let mut r = record(0, 0, 0, TaskState::Healthy(SchedState::Runnable));
    r.deadline = Some(i64::MAX as u64);
    assert!(records_ok(&None, &vec![r], 0));
    let mut r = record(0, 0, 0, TaskState::Healthy(SchedState::Runnable));
    r.deadline = Some(i64::MAX as u64);
    assert!(!records_ok(&None, &vec![r], u64::MAX));
}

#[test]
fn names_split_inside_a_character_are_refused() {
    let mut r = record(0, 0, 0, TaskState::Healthy(SchedState::Runnable));
    r.module = Some("abcdefghijklmé".to_string());
    assert!(!records_ok(&None, &vec![r], 0));
}

#[test]
fn records_not_shown_need_not_be_in_order() {
    let mut bad = record(0, 0, 0, TaskState::Healthy(SchedState::Runnable));
    bad.module = Some("abcdefghijklmé".to_string());
    bad.deadline = Some(i64::MAX as u64);
    let good = record(8, 1, 4, TaskState::Healthy(SchedState::Runnable));
    let rs = vec![bad, good];
    let filter = Some("ping".to_string());
    assert!(!records_ok(&None, &rs, u64::MAX));
    assert!(records_ok(&filter, &rs, u64::MAX));
    let mut opts = options();
    opts.task = filter;
    let pass = render_pass(&opts, &names(), &rs, u64::MAX, 0, false);
    assert!(pass.text.ends_with(" 8 ping                   1   4 ready\n"));
}

#[test]
fn task_table_addresses() {
    assert_eq!(task_address(0x2000_0000, 0, 0x40), 0x2000_0000);
    assert_eq!(task_address(0x2000_0000, 3, 0x40), 0x2000_00c0);
}

#[test]
fn pass_plans() {
    let mut opts = options();
    assert_eq!(
        plan_pass(&opts),
        PassPlan { resume_before_listing: true, read_registers: false, unwind_stack: false, dump_record: false, repeat: false }
    );
    opts.stack = true;
    opts.spin = true;
    opts.verbose = true;
    assert_eq!(
        plan_pass(&opts),
        PassPlan { resume_before_listing: false, read_registers: true, unwind_stack: true, dump_record: true, repeat: true }
    );
}
