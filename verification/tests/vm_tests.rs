use lead::air::Instruction::{self, ADD, BRA, CHK, CMP, CON, DIV, LBL, LDR, STR, SUB, YLD};
use lead::air::{Flag, Mode, Reg};
use lead::vm::{Machine, Message, VMFlags, Verbosity, VmError, VmStatus, DEFAULT_MEMORY_SIZE};

const FUEL: u64 = 1_000_000;

fn run_machine(instructions: Vec<Instruction>, flags: VMFlags) -> Machine {
    let mut vm = Machine::new(instructions, flags);
    let done = vm.run(FUEL);
    assert!(done.is_some(), "program ran out of fuel");
    vm
}

fn yields(vm: &Machine) -> Vec<u32> {
    let mut out = Vec::new();
    for msg in vm.messages() {
        if let Message::Yield(v) = msg {
            out.push(*v);
        }
    }
    out
}

#[test]
fn it_works() {
    assert_eq!(2 + 2, 4);
}

#[test]
fn yield_value() {
    let instructions = vec![CON(Reg(0), 5), YLD(Reg(0))];
    let vm = run_machine(
        instructions,
        VMFlags::new(DEFAULT_MEMORY_SIZE, Verbosity::VeryVerbose.level()),
    );
    assert_eq!(vm.messages()[0], Message::Yield(5));
}

#[test]
fn branch_simple() {
    let instructions = vec![
        BRA("label".to_owned()),
        CON(Reg(0), 5),
        YLD(Reg(0)),
        LBL("label".to_owned()),
        CON(Reg(0), 17),
        YLD(Reg(0)),
    ];
    let vm = run_machine(instructions, VMFlags::none());
    assert_eq!(vm.messages()[0], Message::Yield(17));
}

#[test]
fn store_and_load() {
    let instructions = vec![
        CON(Reg(0), 0xdeadbeef),          // mov r0, #0xdeadbeef
        CON(Reg(1), 0),                   // mov r1, #0
        STR(Reg(0), Reg(1), Mode::Plain), // str r0, [r1]
        ADD(Reg(1), Reg(1), Reg(1)),      // nop
        LDR(Reg(2), Reg(1), Mode::Plain), // ldr r2, [r1]
        YLD(Reg(2)),                      // yield r2
    ];
    let vm = run_machine(instructions, VMFlags::none());
    assert_eq!(vm.memory()[0..4], vec![0xde, 0xad, 0xbe, 0xef]);
    assert_eq!(vm.messages()[0], Message::Yield(0xdeadbeef));
}

#[test]
fn loop_not_taken() {
    let instructions = vec![
        CON(Reg(0), 37),                       // mov r0, #37
        LBL("check-condition".into()),         // check-condition:
        CON(Reg(1), 12),                       //     mov r1, 12
        CMP(Reg(0), Reg(1), None),             //     cmp r0, r1
        CHK(Flag::Gt),                         //
        BRA("break".into()),                   //     bgt break
        YLD(Reg(1)),                           //     yld r1
        BRA("check-condition".into()),         //     b check-condition
        LBL("break".into()),                   // break:
        CON(Reg(2), 0xbeef),                   //     mov r2, #0xbeef
        YLD(Reg(2)),                           //     yld r2
    ];
    let vm = run_machine(
        instructions,
        VMFlags::new(DEFAULT_MEMORY_SIZE, Verbosity::VeryVerbose.level()),
    );
    assert_eq!(vm.messages()[0], Message::Yield(0xbeef));
}

#[test]
fn loop_and_break() {
    let instructions = vec![
        CON(Reg(0), 1),                        // mov r0, #1
        LBL("check-condition".into()),         // check-condition:
        CON(Reg(1), 5),                        //      mov r1, #5
        CMP(Reg(0), Reg(1), None),             //      cmp r0, r1
        CHK(Flag::Ge),                         //
        BRA("break".into()),                   //      bge break
        YLD(Reg(0)),                           //      yld r0
        CON(Reg(2), 1),                        //      mov r2, #1
        ADD(Reg(0), Reg(0), Reg(2)),           //      add r0, r2
        BRA("check-condition".into()),         //      b check-condition
        LBL("break".into()),                   // break:
        CON(Reg(3), 64),                       // mov r3, #64
        YLD(Reg(3)),                           // yld r3
    ];
    let vm = run_machine(instructions, VMFlags::none());
    assert_eq!(yields(&vm), vec![1, 2, 3, 4, 64]);
    assert_eq!(vm.messages().last(), Some(&Message::Done));
}

#[test]
fn tests_r_yield() {
    let instructions = vec![Instruction::CON(Reg(0), 5), Instruction::YLD(Reg(0))];
    let vm = run_machine(instructions, VMFlags::none());
    assert_eq!(vm.messages()[0], Message::Yield(5));
}

#[test]
fn tests_branch_simple() {
    let instructions = vec![
        Instruction::BRA("label".to_owned()),
        Instruction::CON(Reg(0), 5),
        Instruction::YLD(Reg(0)),
        Instruction::LBL("label".to_owned()),
        Instruction::CON(Reg(0), 17),
        Instruction::YLD(Reg(0)),
    ];
    let vm = run_machine(instructions, VMFlags::none());
    assert_eq!(vm.messages()[0], Message::Yield(17));
}

#[test]
fn tests_store_and_load() {
    let instructions = vec![
        Instruction::CON(Reg(0), 0xdeadbeef),          // mov r0, #0xdead
        Instruction::CON(Reg(1), 0),                   // mov r1, #0
        Instruction::STR(Reg(0), Reg(1), Mode::Plain), // str r0, [r1]
        Instruction::ADD(Reg(1), Reg(1), Reg(1)),      // nop
        Instruction::LDR(Reg(2), Reg(1), Mode::Plain), // ldr r2, [r1]
        Instruction::YLD(Reg(2)),                      // yield r2
    ];
    let mut vm = Machine::new(instructions, VMFlags::new(4, 0));
    vm.run(FUEL).expect("program should finish");
    assert_eq!(vm.memory(), &vec![0xde, 0xad, 0xbe, 0xef]);
    assert_eq!(vm.messages()[0], Message::Yield(0xdeadbeef));
}

#[test]
fn run_is_deterministic() {
    let program = || {
        vec![
            CON(Reg(0), 3),
            LBL("again".into()),
            YLD(Reg(0)),
            CON(Reg(1), 1),
            SUB(Reg(0), Reg(0), Reg(1)),
            CON(Reg(2), 0),
            CMP(Reg(0), Reg(2), None),
            CHK(Flag::Eq),
            BRA("end".into()),
            BRA("again".into()),
            LBL("end".into()),
        ]
    };
    let first = run_machine(program(), VMFlags::none());
    let second = run_machine(program(), VMFlags::none());
    assert_eq!(yields(&first), yields(&second));
    assert_eq!(yields(&first), vec![3, 2, 1]);
}

#[test]
fn flags_accumulate_and_latest_comparison_wins() {
    // CMP 1, 2 sets the less-than bits; CMP 2, 1 then sets the greater-than
    // bits; both stay set, and a check of the latest comparison's flag takes
    // the branch.
    let instructions = vec![
        CON(Reg(0), 1),
        CON(Reg(1), 2),
        CMP(Reg(0), Reg(1), None),
        CMP(Reg(1), Reg(0), None),
        CHK(Flag::Gt),
        BRA("latest".into()),
        YLD(Reg(0)),
        LBL("latest".into()),
        CHK(Flag::Lt),
        BRA("stale".into()),
        YLD(Reg(0)),
        LBL("stale".into()),
        CON(Reg(2), 7),
        YLD(Reg(2)),
    ];
    let vm = run_machine(instructions, VMFlags::none());
    // both branches were taken: neither YLD of register 0 ran
    assert_eq!(yields(&vm), vec![7]);
}

#[test]
fn division_by_zero_faults() {
    let instructions = vec![CON(Reg(0), 1), CON(Reg(1), 0), DIV(Reg(2), Reg(0), Reg(1))];
    let mut vm = Machine::new(instructions, VMFlags::none());
    let r = vm.run(FUEL).expect("program should stop");
    assert!(matches!(r, Err(VmError::DivisionByZero)));
    // the fault is flushed to the host before the final end-of-stream message
    let n = vm.messages().len();
    assert_eq!(vm.messages()[n - 2], Message::Fatal(VmError::DivisionByZero));
    assert_eq!(vm.messages()[n - 1], Message::Done);
}

#[test]
fn uninitialised_register_faults() {
    let instructions = vec![YLD(Reg(9))];
    let mut vm = Machine::new(instructions, VMFlags::none());
    let r = vm.run(FUEL).expect("program should stop");
    assert!(matches!(r, Err(VmError::UninitialisedRegister(Reg(9)))));
}

#[test]
fn out_of_bounds_store_faults() {
    let instructions = vec![CON(Reg(0), 1), CON(Reg(1), 600), STR(Reg(0), Reg(1), Mode::Plain)];
    let mut vm = Machine::new(instructions, VMFlags::new(256, 0));
    let r = vm.run(FUEL).expect("program should stop");
    assert!(matches!(r, Err(VmError::MemoryOutOfBounds(600))));
}

#[test]
fn missing_label_faults() {
    let instructions = vec![BRA("nowhere".to_owned())];
    let mut vm = Machine::new(instructions, VMFlags::none());
    let r = vm.run(FUEL).expect("program should stop");
    match r {
        Err(VmError::MissingLabel(l)) => assert_eq!(l, "nowhere"),
        other => panic!("expected a missing label fault, got {:?}", other),
    }
}

#[test]
fn pre_and_post_offset_modes() {
    // store 9 at address 4 with a pre-increment, then load it back through a
    // post-increment and watch the address register advance
    let instructions = vec![
        CON(Reg(0), 9),
        CON(Reg(1), 0),
        CON(Reg(2), 4),
        STR(Reg(0), Reg(1), Mode::PreOffset(Reg(2))), // r1 becomes 4
        YLD(Reg(1)),
        LDR(Reg(3), Reg(1), Mode::PostOffset(Reg(2))), // r1 becomes 8
        YLD(Reg(3)),
        YLD(Reg(1)),
    ];
    let vm = run_machine(instructions, VMFlags::none());
    assert_eq!(yields(&vm), vec![4, 9, 8]);
}

#[test]
fn done_is_sent_once_after_completion() {
    let instructions = vec![CON(Reg(0), 5), YLD(Reg(0))];
    let vm = run_machine(instructions, VMFlags::none());
    assert!(matches!(vm.status(), VmStatus::Finished));
    let dones = vm
        .messages()
        .iter()
        .filter(|m| matches!(m, Message::Done))
        .count();
    assert_eq!(dones, 1);
    assert_eq!(vm.messages().last(), Some(&Message::Done));
}

#[test]
fn fuel_can_run_out_and_resume() {
    let instructions = vec![
        CON(Reg(0), 1),
        CON(Reg(1), 2),
        ADD(Reg(2), Reg(0), Reg(1)),
        YLD(Reg(2)),
    ];
    let mut vm = Machine::new(instructions, VMFlags::none());
    assert!(vm.run(1).is_none());
    assert!(vm.run(FUEL).is_some());
    assert_eq!(vm.messages()[0], Message::Yield(3));
}
