use stack_vm::{Event, Fault, InputError, Instruction, Opcode, Status, VM};

fn machine_with(program: Vec<Instruction>) -> VM {
    let mut vm = VM::new();
    vm.load_program(program);
    vm
}

fn ran(program: Vec<Instruction>) -> VM {
    let mut vm = machine_with(program);
    assert_eq!(vm.run(), Status::Halted);
    vm
}

fn push(v: i32) -> Instruction {
    (Opcode::PSH, Some(v), None)
}

fn op(opcode: Opcode) -> Instruction {
    (opcode, None, None)
}

fn op1(opcode: Opcode, a: i32) -> Instruction {
    (opcode, Some(a), None)
}

fn op2(opcode: Opcode, a: i32, b: i32) -> Instruction {
    (opcode, Some(a), Some(b))
}

#[test]
fn new_machine_is_empty_and_halted() {
    let vm = VM::new();
    assert_eq!(vm.pc(), 0);
    assert!(!vm.is_running());
    assert!(vm.stack().is_empty());
    assert_eq!(vm.registers(), &[0; 8]);
    assert!(vm.program().is_empty());
    assert_eq!(vm.memory_len(), 0);
    assert_eq!(vm.labels().len(), 0);
    assert!(vm.output().is_empty());
    assert_eq!(vm.status(), Status::Halted);
}

#[test]
fn load_program_resets_only_the_program_counter() {
    let mut vm = ran(vec![push(4), op1(Opcode::SET, 2), push(9), op1(Opcode::STR, 5), push(1)]);
    assert_eq!(vm.pc(), 5);
    vm.load_program(vec![op(Opcode::NOP)]);
    assert_eq!(vm.pc(), 0);
    assert_eq!(vm.program(), &vec![op(Opcode::NOP)]);
    assert_eq!(vm.stack(), &vec![1]);
    assert_eq!(vm.registers()[2], 4);
    assert_eq!(vm.memory_at(5), Some(9));
    assert!(vm.is_running());
}

#[test]
fn prints_thirty_then_sixty_and_halts() {
    let mut vm = machine_with(vec![
        push(10),
        push(20),
        op(Opcode::ADD),
        op(Opcode::PRT),
        push(2),
        op(Opcode::MUL),
        op(Opcode::PRT),
        op(Opcode::HLT),
    ]);
    let status = vm.run();
    assert_eq!(status, Status::Halted);
    assert_eq!(vm.take_output(), vec![Event::Print(30), Event::Print(60)]);
    assert!(!vm.is_running());
    assert_eq!(vm.pc(), 8);
    assert_eq!(vm.stack(), &vec![60]);
}

#[test]
fn sum_is_printed_exactly_once() {
    for (a, b) in [(1, 2), (-5, 5), (i32::MAX, 0), (i32::MIN, i32::MAX), (1000, -2000)] {
        let mut vm = ran(vec![push(a), push(b), op(Opcode::ADD), op(Opcode::PPT)]);
        assert_eq!(vm.take_output(), vec![Event::Print(a + b)]);
        assert!(vm.stack().is_empty());
        assert_eq!(vm.pc(), 4);
    }
}

#[test]
fn sums_outside_the_range_wrap_around() {
    let mut vm = ran(vec![push(i32::MAX), push(1), op(Opcode::ADD), op(Opcode::PPT)]);
    assert_eq!(vm.take_output(), vec![Event::Print(i32::MIN)]);
    let mut vm = ran(vec![push(i32::MIN), push(1), op(Opcode::SUB), op(Opcode::PPT)]);
    assert_eq!(vm.take_output(), vec![Event::Print(i32::MAX)]);
    let mut vm = ran(vec![push(65536), push(65536), op(Opcode::MUL), op(Opcode::PPT)]);
    assert_eq!(vm.take_output(), vec![Event::Print(0)]);
    let mut vm = ran(vec![push(i32::MIN), push(-1), op(Opcode::DIV), op(Opcode::PPT)]);
    assert_eq!(vm.take_output(), vec![Event::Print(i32::MIN)]);
    let mut vm = ran(vec![push(i32::MIN), push(-1), op(Opcode::MOD), op(Opcode::PPT)]);
    assert_eq!(vm.take_output(), vec![Event::Print(0)]);
}

#[test]
fn stack_arithmetic_takes_the_value_pushed_first_as_left_operand() {
    assert_eq!(ran(vec![push(10), push(3), op(Opcode::SUB)]).stack(), &vec![7]);
    assert_eq!(ran(vec![push(10), push(3), op(Opcode::DIV)]).stack(), &vec![3]);
    assert_eq!(ran(vec![push(10), push(3), op(Opcode::MOD)]).stack(), &vec![1]);
    assert_eq!(ran(vec![push(10), push(3), op(Opcode::ADD)]).stack(), &vec![13]);
    assert_eq!(ran(vec![push(10), push(3), op(Opcode::MUL)]).stack(), &vec![30]);
}

#[test]
fn division_rounds_toward_zero() {
    assert_eq!(ran(vec![push(-7), push(2), op(Opcode::DIV)]).stack(), &vec![-3]);
    assert_eq!(ran(vec![push(-7), push(2), op(Opcode::MOD)]).stack(), &vec![-1]);
    assert_eq!(ran(vec![push(7), push(-2), op(Opcode::DIV)]).stack(), &vec![-3]);
    assert_eq!(ran(vec![push(7), push(-2), op(Opcode::MOD)]).stack(), &vec![1]);
    assert_eq!(ran(vec![push(-7), push(-2), op(Opcode::DIV)]).stack(), &vec![3]);
    assert_eq!(ran(vec![push(-7), push(-2), op(Opcode::MOD)]).stack(), &vec![-1]);
}

#[test]
fn stack_arithmetic_needs_two_values() {
    for opcode in [Opcode::ADD, Opcode::SUB, Opcode::MUL, Opcode::DIV, Opcode::MOD] {
        let mut vm = ran(vec![push(1), op(opcode), op(Opcode::PPT)]);
        assert_eq!(
            vm.take_output(),
            vec![Event::Error(opcode, Fault::StackUnderflow), Event::Print(1)]
        );
        assert_eq!(vm.pc(), 3);
    }
}

#[test]
fn division_by_zero_takes_operands_and_goes_on() {
    for opcode in [Opcode::DIV, Opcode::MOD] {
        let mut vm = ran(vec![push(7), push(5), push(0), op(opcode), op(Opcode::PPT)]);
        assert_eq!(
            vm.take_output(),
            vec![Event::Error(opcode, Fault::DivisionByZero), Event::Print(7)]
        );
        assert!(vm.stack().is_empty());
        assert_eq!(vm.pc(), 5);
    }
}

#[test]
fn zero_divided_by_a_number_is_zero() {
    assert_eq!(ran(vec![push(0), push(5), op(Opcode::DIV)]).stack(), &vec![0]);
    assert_eq!(ran(vec![push(0), push(5), op(Opcode::MOD)]).stack(), &vec![0]);
}

#[test]
fn register_arithmetic_reads_registers_and_leaves_them() {
    let set_up = vec![push(20), op1(Opcode::SET, 1), push(6), op1(Opcode::SET, 2)];
    for (opcode, expected) in [
        (Opcode::ADD, 26),
        (Opcode::SUB, 14),
        (Opcode::MUL, 120),
        (Opcode::DIV, 3),
        (Opcode::MOD, 2),
    ] {
        let mut program = set_up.clone();
        program.push(op2(opcode, 1, 2));
        let vm = ran(program);
        assert_eq!(vm.stack(), &vec![expected]);
        assert_eq!(vm.registers(), &[0, 20, 6, 0, 0, 0, 0, 0]);
    }
}

#[test]
fn register_arithmetic_with_absent_first_operand_reads_register_zero() {
    let vm = ran(vec![
        push(5),
        op1(Opcode::SET, 0),
        push(7),
        op1(Opcode::SET, 3),
        (Opcode::ADD, None, Some(3)),
    ]);
    assert_eq!(vm.stack(), &vec![12]);
}

#[test]
fn register_arithmetic_diagnoses_an_invalid_register() {
    for (a, b) in [(8, 0), (0, 8), (-1, 0), (0, -1), (100, 100)] {
        let mut vm = ran(vec![op2(Opcode::ADD, a, b)]);
        assert_eq!(vm.take_output(), vec![Event::Error(Opcode::ADD, Fault::InvalidRegister)]);
        assert!(vm.stack().is_empty());
        assert_eq!(vm.pc(), 1);
    }
}

#[test]
fn register_division_by_zero_is_diagnosed() {
    let mut vm = ran(vec![push(5), op1(Opcode::SET, 1), op2(Opcode::DIV, 1, 2), op2(Opcode::MOD, 1, 2)]);
    assert_eq!(
        vm.take_output(),
        vec![
            Event::Error(Opcode::DIV, Fault::DivisionByZero),
            Event::Error(Opcode::MOD, Fault::DivisionByZero)
        ]
    );
    assert!(vm.stack().is_empty());
}

#[test]
fn increment_and_decrement_the_top_of_the_stack() {
    assert_eq!(ran(vec![push(41), op(Opcode::INC)]).stack(), &vec![42]);
    assert_eq!(ran(vec![push(41), op(Opcode::DEC)]).stack(), &vec![40]);
    assert_eq!(ran(vec![push(i32::MAX), op(Opcode::INC)]).stack(), &vec![i32::MIN]);
    assert_eq!(ran(vec![push(i32::MIN), op(Opcode::DEC)]).stack(), &vec![i32::MAX]);
    let mut vm = ran(vec![op(Opcode::INC), op(Opcode::DEC)]);
    assert_eq!(
        vm.take_output(),
        vec![
            Event::Error(Opcode::INC, Fault::StackUnderflow),
            Event::Error(Opcode::DEC, Fault::StackUnderflow)
        ]
    );
}

#[test]
fn increment_and_decrement_a_register() {
    let vm = ran(vec![op1(Opcode::INC, 3), op1(Opcode::INC, 3), op1(Opcode::DEC, 7)]);
    assert_eq!(vm.registers(), &[0, 0, 0, 2, 0, 0, 0, -1]);
    assert!(vm.stack().is_empty());
}

#[test]
fn push_without_operand_does_nothing() {
    let mut vm = ran(vec![op(Opcode::PSH), push(3)]);
    assert_eq!(vm.stack(), &vec![3]);
    assert!(vm.take_output().is_empty());
}

#[test]
fn pop_dup_swap() {
    assert_eq!(ran(vec![push(1), push(2), op(Opcode::POP)]).stack(), &vec![1]);
    assert_eq!(ran(vec![push(1), push(2), op(Opcode::DUP)]).stack(), &vec![1, 2, 2]);
    assert_eq!(ran(vec![push(1), push(2), push(3), op(Opcode::SWP)]).stack(), &vec![1, 3, 2]);
}

#[test]
fn pop_dup_swap_on_too_small_a_stack() {
    let mut vm = ran(vec![op(Opcode::POP), op(Opcode::DUP), push(1), op(Opcode::SWP)]);
    assert_eq!(
        vm.take_output(),
        vec![
            Event::Error(Opcode::POP, Fault::EmptyStack),
            Event::Error(Opcode::DUP, Fault::StackUnderflow),
            Event::Error(Opcode::SWP, Fault::StackUnderflow)
        ]
    );
    assert_eq!(vm.stack(), &vec![1]);
}

#[test]
fn clear_stack() {
    let mut vm = ran(vec![push(1), push(2), op(Opcode::SCL)]);
    assert!(vm.stack().is_empty());
    assert!(vm.take_output().is_empty());
}

#[test]
fn clear_of_an_empty_stack_is_an_error_and_execution_goes_on() {
    let mut vm = ran(vec![op(Opcode::SCL), op(Opcode::SCL), push(5), op(Opcode::PPT)]);
    assert_eq!(
        vm.take_output(),
        vec![
            Event::Error(Opcode::SCL, Fault::AlreadyEmpty),
            Event::Error(Opcode::SCL, Fault::AlreadyEmpty),
            Event::Print(5)
        ]
    );
    assert_eq!(vm.pc(), 4);
}

#[test]
fn store_and_load() {
    let vm = ran(vec![push(77), op1(Opcode::STR, 1000), op1(Opcode::LOA, 1000), op1(Opcode::LOA, 1000)]);
    assert_eq!(vm.stack(), &vec![77, 77]);
    assert_eq!(vm.memory_at(1000), Some(77));
    assert_eq!(vm.memory_at(999), None);
    assert_eq!(vm.memory_len(), 1);
}

#[test]
fn store_at_the_ends_of_the_memory() {
    let vm = ran(vec![push(1), op1(Opcode::STR, 0), push(2), op1(Opcode::STR, 1_048_575)]);
    assert_eq!(vm.memory_at(0), Some(1));
    assert_eq!(vm.memory_at(1_048_575), Some(2));
    assert!(vm.output().is_empty());
}

#[test]
fn store_out_of_bounds_is_an_error_and_the_value_is_lost() {
    for address in [-1, 1_048_576, i32::MAX, i32::MIN] {
        let mut vm = ran(vec![push(1), push(2), op1(Opcode::STR, address)]);
        assert_eq!(vm.take_output(), vec![Event::Error(Opcode::STR, Fault::AddressOutOfBounds)]);
        assert_eq!(vm.stack(), &vec![1]);
        assert_eq!(vm.memory_len(), 0);
    }
}

#[test]
fn store_without_address_loses_the_value_silently() {
    let mut vm = ran(vec![push(1), push(2), op(Opcode::STR)]);
    assert!(vm.take_output().is_empty());
    assert_eq!(vm.stack(), &vec![1]);
    assert_eq!(vm.memory_len(), 0);
}

#[test]
fn store_on_an_empty_stack_does_nothing() {
    let mut vm = ran(vec![op1(Opcode::STR, 3)]);
    assert!(vm.take_output().is_empty());
    assert_eq!(vm.memory_len(), 0);
    assert_eq!(vm.pc(), 1);
}

#[test]
fn load_of_an_unset_address_is_silent() {
    let mut vm = ran(vec![op1(Opcode::LOA, 5), op1(Opcode::LOA, -1), op(Opcode::LOA), op1(Opcode::LOA, i32::MAX)]);
    assert!(vm.take_output().is_empty());
    assert!(vm.stack().is_empty());
    assert_eq!(vm.pc(), 4);
}

#[test]
fn clear_memory() {
    let mut vm = ran(vec![push(1), op1(Opcode::STR, 1), op(Opcode::MCL), op(Opcode::MCL)]);
    assert_eq!(vm.memory_len(), 0);
    assert_eq!(vm.memory_at(1), None);
    assert_eq!(vm.take_output(), vec![Event::Error(Opcode::MCL, Fault::AlreadyEmpty)]);
}

#[test]
fn set_then_get_leaves_the_stack_as_it_was() {
    for r in 0..8 {
        let vm = ran(vec![push(11), push(22), op1(Opcode::SET, r), op1(Opcode::GET, r)]);
        assert_eq!(vm.stack(), &vec![11, 22]);
        assert_eq!(vm.registers()[r as usize], 22);
    }
}

#[test]
fn set_on_an_empty_stack_is_an_error() {
    let mut vm = ran(vec![op1(Opcode::SET, 1), op1(Opcode::SET, 99), op(Opcode::SET)]);
    assert_eq!(
        vm.take_output(),
        vec![
            Event::Error(Opcode::SET, Fault::StackUnderflow),
            Event::Error(Opcode::SET, Fault::StackUnderflow),
            Event::Error(Opcode::SET, Fault::StackUnderflow)
        ]
    );
    assert_eq!(vm.registers(), &[0; 8]);
}

#[test]
fn set_and_get_without_operand_do_nothing() {
    let mut vm = ran(vec![push(1), op(Opcode::SET), op(Opcode::GET)]);
    assert_eq!(vm.stack(), &vec![1]);
    assert!(vm.take_output().is_empty());
    assert_eq!(vm.pc(), 3);
}

#[test]
fn move_then_get_source_yields_zero() {
    let vm = ran(vec![push(9), op1(Opcode::SET, 1), op2(Opcode::MOV, 1, 2), op1(Opcode::GET, 1), op1(Opcode::GET, 2)]);
    assert_eq!(vm.stack(), &vec![0, 9]);
    assert_eq!(vm.registers(), &[0, 0, 9, 0, 0, 0, 0, 0]);
}

#[test]
fn move_to_the_same_register_yields_zero() {
    let vm = ran(vec![push(9), op1(Opcode::SET, 1), op2(Opcode::MOV, 1, 1), op1(Opcode::GET, 1)]);
    assert_eq!(vm.stack(), &vec![0]);
}

#[test]
fn copy_then_get_source_yields_the_value() {
    let vm = ran(vec![push(9), op1(Opcode::SET, 1), op2(Opcode::COP, 1, 2), op1(Opcode::GET, 1), op1(Opcode::GET, 2)]);
    assert_eq!(vm.stack(), &vec![9, 9]);
    assert_eq!(vm.registers(), &[0, 9, 9, 0, 0, 0, 0, 0]);
}

#[test]
fn move_and_copy_need_two_operands() {
    let mut vm = ran(vec![op1(Opcode::MOV, 1), op1(Opcode::COP, 1), op(Opcode::MOV)]);
    assert_eq!(
        vm.take_output(),
        vec![
            Event::Error(Opcode::MOV, Fault::MissingOperand),
            Event::Error(Opcode::COP, Fault::MissingOperand),
            Event::Error(Opcode::MOV, Fault::MissingOperand)
        ]
    );
    assert_eq!(vm.pc(), 3);
}

#[test]
fn move_with_absent_first_operand_moves_register_zero() {
    let vm = ran(vec![push(4), op1(Opcode::SET, 0), (Opcode::MOV, None, Some(5))]);
    assert_eq!(vm.registers(), &[0, 0, 0, 0, 0, 4, 0, 0]);
}

#[test]
fn a_register_that_does_not_exist_stops_the_machine_where_it_stands() {
    for program in [
        vec![push(1), op1(Opcode::INC, 8)],
        vec![push(1), op1(Opcode::DEC, -1)],
        vec![push(1), op1(Opcode::GET, 8)],
        vec![push(1), op1(Opcode::SET, 8)],
        vec![push(1), op2(Opcode::MOV, 8, 0)],
        vec![push(1), op2(Opcode::MOV, 0, 8)],
        vec![push(1), op2(Opcode::COP, -1, 0)],
        vec![push(1), op2(Opcode::COP, 0, 12)],
    ] {
        let mut vm = machine_with(program);
        assert_eq!(vm.run_for(100), Status::BadRegister);
        assert_eq!(vm.status(), Status::BadRegister);
        assert_eq!(vm.pc(), 1);
        assert_eq!(vm.stack(), &vec![1]);
        assert_eq!(vm.registers(), &[0; 8]);
        assert!(vm.output().is_empty());
        assert_eq!(vm.step(), Status::BadRegister);
        assert_eq!(vm.pc(), 1);
    }
}

#[test]
fn jump_goes_to_its_target() {
    let mut vm = ran(vec![op1(Opcode::JMP, 2), push(1), push(2), op(Opcode::PPT)]);
    assert_eq!(vm.take_output(), vec![Event::Print(2)]);
    assert!(vm.stack().is_empty());
}

#[test]
fn jump_to_no_instruction_is_an_error_and_falls_through() {
    for target in [1, 2, -1, i32::MAX] {
        let mut vm = ran(vec![op1(Opcode::JMP, target)]);
        assert_eq!(
            vm.take_output(),
            vec![Event::Error(Opcode::JMP, Fault::InvalidJumpTarget(target))]
        );
        assert_eq!(vm.pc(), 1);
    }
}

#[test]
fn jump_without_operand_falls_through() {
    let mut vm = ran(vec![op(Opcode::JMP), push(1)]);
    assert!(vm.take_output().is_empty());
    assert_eq!(vm.stack(), &vec![1]);
}

#[test]
fn conditional_jumps_test_the_top_and_leave_it() {
    for (opcode, value, jumps) in [
        (Opcode::JEZ, 0, true),
        (Opcode::JEZ, 3, false),
        (Opcode::JEZ, -3, false),
        (Opcode::JNZ, 0, false),
        (Opcode::JNZ, 3, true),
        (Opcode::JNZ, -3, true),
        (Opcode::JGZ, 0, false),
        (Opcode::JGZ, 3, true),
        (Opcode::JGZ, -3, false),
        (Opcode::JLZ, 0, false),
        (Opcode::JLZ, 3, false),
        (Opcode::JLZ, -3, true),
    ] {
        let mut vm = ran(vec![push(value), op1(opcode, 3), push(100), op(Opcode::PPT), op(Opcode::PPT)]);
        if jumps {
            assert_eq!(vm.take_output(), vec![Event::Print(value), Event::Error(Opcode::PPT, Fault::EmptyStack)]);
        } else {
            assert_eq!(vm.take_output(), vec![Event::Print(100), Event::Print(value)]);
        }
    }
}

#[test]
fn conditional_jump_on_an_empty_stack_falls_through() {
    for opcode in [Opcode::JEZ, Opcode::JNZ, Opcode::JGZ, Opcode::JLZ] {
        let mut vm = ran(vec![op1(opcode, 0), push(1)]);
        assert!(vm.take_output().is_empty());
        assert_eq!(vm.stack(), &vec![1]);
        assert_eq!(vm.pc(), 2);
    }
}

#[test]
fn conditional_jump_to_no_instruction_is_an_error() {
    let mut vm = ran(vec![push(0), op1(Opcode::JEZ, 7), op1(Opcode::JEZ, -2)]);
    assert_eq!(
        vm.take_output(),
        vec![
            Event::Error(Opcode::JEZ, Fault::InvalidJumpTarget(7)),
            Event::Error(Opcode::JEZ, Fault::InvalidJumpTarget(-2))
        ]
    );
    assert_eq!(vm.stack(), &vec![0]);
    assert_eq!(vm.pc(), 3);
}

#[test]
fn conditional_jump_without_operand_falls_through() {
    let mut vm = ran(vec![push(0), op(Opcode::JEZ)]);
    assert!(vm.take_output().is_empty());
    assert_eq!(vm.pc(), 2);
}

#[test]
fn conditional_jump_prefers_a_label_named_like_its_target() {
    let mut vm = machine_with(vec![push(0), op1(Opcode::JEZ, 1), push(5), push(6), op(Opcode::PPT)]);
    vm.define_label("1", 3);
    assert_eq!(vm.run_for(100), Status::Halted);
    assert_eq!(vm.take_output(), vec![Event::Print(6)]);
    assert_eq!(vm.stack(), &vec![0]);

    let mut vm = machine_with(vec![push(-1), op1(Opcode::JLZ, -7), push(5)]);
    vm.define_label("-7", 3);
    assert_eq!(vm.run_for(100), Status::Halted);
    assert_eq!(vm.stack(), &vec![-1]);
    assert_eq!(vm.pc(), 3);
    assert!(vm.output().is_empty());
}

#[test]
fn unconditional_jump_does_not_look_at_labels() {
    let mut vm = machine_with(vec![op1(Opcode::JMP, 1), push(5), push(6)]);
    vm.define_label("1", 2);
    assert_eq!(vm.run_for(100), Status::Halted);
    assert_eq!(vm.stack(), &vec![5, 6]);
}

#[test]
fn stack_comparisons_compare_the_value_popped_first_with_the_one_popped_second() {
    for (opcode, below, top, expected) in [
        (Opcode::EQU, 3, 3, 1),
        (Opcode::EQU, 3, 4, 0),
        (Opcode::NEQ, 3, 3, 0),
        (Opcode::NEQ, 3, 4, 1),
        (Opcode::GTH, 3, 4, 1),
        (Opcode::GTH, 4, 3, 0),
        (Opcode::GTH, 3, 3, 0),
        (Opcode::LTH, 3, 4, 0),
        (Opcode::LTH, 4, 3, 1),
        (Opcode::LTH, 3, 3, 0),
        (Opcode::GTE, 3, 4, 1),
        (Opcode::GTE, 4, 3, 0),
        (Opcode::GTE, 3, 3, 1),
        (Opcode::LTE, 3, 4, 0),
        (Opcode::LTE, 4, 3, 1),
        (Opcode::LTE, 3, 3, 1),
    ] {
        let vm = ran(vec![push(9), push(below), push(top), op(opcode)]);
        assert_eq!(vm.stack(), &vec![9, expected]);
    }
}

#[test]
fn stack_comparisons_need_two_values() {
    for opcode in [Opcode::EQU, Opcode::NEQ, Opcode::GTH, Opcode::LTH, Opcode::GTE, Opcode::LTE] {
        let mut vm = ran(vec![push(1), op(opcode)]);
        assert_eq!(vm.take_output(), vec![Event::Error(opcode, Fault::StackUnderflow)]);
        assert_eq!(vm.stack(), &vec![1]);
    }
}

#[test]
fn register_comparisons_compare_the_indices_not_the_contents() {
    let set_up = vec![push(50), op1(Opcode::SET, 1), push(7), op1(Opcode::SET, 2)];
    for (opcode, a, b, expected) in [
        (Opcode::EQU, 1, 2, 0),
        (Opcode::EQU, 2, 2, 1),
        (Opcode::NEQ, 1, 2, 1),
        (Opcode::NEQ, 2, 2, 0),
        (Opcode::GTH, 1, 2, 0),
        (Opcode::GTH, 2, 1, 1),
        (Opcode::LTH, 1, 2, 1),
        (Opcode::LTH, 2, 1, 0),
        (Opcode::GTE, 1, 2, 0),
        (Opcode::GTE, 2, 2, 1),
        (Opcode::LTE, 1, 2, 1),
        (Opcode::LTE, 2, 1, 0),
    ] {
        let mut program = set_up.clone();
        program.push(op2(opcode, a, b));
        let vm = ran(program);
        assert_eq!(vm.stack(), &vec![expected]);
    }
}

#[test]
fn register_comparisons_diagnose_an_invalid_register() {
    for opcode in [Opcode::EQU, Opcode::NEQ, Opcode::GTH, Opcode::LTH, Opcode::GTE, Opcode::LTE] {
        let mut vm = ran(vec![op2(opcode, 8, 8), op2(opcode, -1, 0)]);
        assert_eq!(
            vm.take_output(),
            vec![
                Event::Error(opcode, Fault::InvalidRegister),
                Event::Error(opcode, Fault::InvalidRegister)
            ]
        );
        assert!(vm.stack().is_empty());
    }
}

#[test]
fn print_peeks_and_pop_print_pops() {
    let mut vm = ran(vec![push(5), op(Opcode::PRT), op(Opcode::PRT), op(Opcode::PPT), op(Opcode::PPT), op(Opcode::PRT)]);
    assert_eq!(
        vm.take_output(),
        vec![
            Event::Print(5),
            Event::Print(5),
            Event::Print(5),
            Event::Error(Opcode::PPT, Fault::EmptyStack),
            Event::Error(Opcode::PRT, Fault::EmptyStack)
        ]
    );
}

#[test]
fn print_char() {
    let mut vm = ran(vec![
        push(0x263A),
        push(0x10FFFF),
        push(0),
        push(65),
        op(Opcode::PRC),
        op(Opcode::PRC),
        op(Opcode::PRC),
        op(Opcode::PRC),
        op(Opcode::PRC),
    ]);
    assert_eq!(
        vm.take_output(),
        vec![
            Event::PrintChar('A'),
            Event::PrintChar('\0'),
            Event::PrintChar('\u{10FFFF}'),
            Event::PrintChar('\u{263A}'),
            Event::Error(Opcode::PRC, Fault::EmptyStack)
        ]
    );
}

#[test]
fn print_char_of_no_character_code() {
    for code in [-1, 0xD800, 0xDFFF, 0x110000, i32::MIN, i32::MAX] {
        let mut vm = ran(vec![push(1), push(code), op(Opcode::PRC)]);
        assert_eq!(vm.take_output(), vec![Event::Error(Opcode::PRC, Fault::InvalidCharCode(code))]);
        assert_eq!(vm.stack(), &vec![1]);
    }
    let mut vm = ran(vec![push(0xD7FF), op(Opcode::PRC), push(0xE000), op(Opcode::PRC)]);
    assert_eq!(vm.take_output(), vec![Event::PrintChar('\u{D7FF}'), Event::PrintChar('\u{E000}')]);
}

#[test]
fn halt_stops_the_run_and_moves_on_by_one() {
    let mut vm = machine_with(vec![push(1), op(Opcode::HLT), push(2)]);
    assert_eq!(vm.run_for(100), Status::Halted);
    assert_eq!(vm.stack(), &vec![1]);
    assert_eq!(vm.pc(), 2);
    assert!(!vm.is_running());
    assert_eq!(vm.step(), Status::Halted);
    assert_eq!(vm.pc(), 2);
    assert_eq!(vm.run_for(100), Status::Halted);
    assert_eq!(vm.stack(), &vec![1, 2]);
    assert!(vm.is_running());
}

#[test]
fn falling_off_the_end_stops_the_run() {
    let mut vm = machine_with(vec![op(Opcode::NOP), op(Opcode::NOP)]);
    assert_eq!(vm.run_for(100), Status::Halted);
    assert_eq!(vm.pc(), 2);
    assert!(vm.is_running());
    assert!(vm.output().is_empty());
}

#[test]
fn an_empty_program_halts_at_once() {
    let mut vm = VM::new();
    assert_eq!(vm.run_for(5), Status::Halted);
    assert_eq!(vm.pc(), 0);
}

#[test]
fn run_stops_when_the_steps_are_used_up() {
    let mut vm = machine_with(vec![push(1), op(Opcode::POP), op1(Opcode::JMP, 0)]);
    assert_eq!(vm.run_for(7), Status::Ready);
    assert_eq!(vm.pc(), 1);
    assert_eq!(vm.stack(), &vec![1]);
    assert_eq!(vm.run_for(0), Status::Ready);
    assert_eq!(vm.pc(), 1);
    assert_eq!(vm.run_for(2), Status::Ready);
    assert_eq!(vm.pc(), 0);
    assert!(vm.stack().is_empty());
}

#[test]
fn a_run_in_pieces_is_the_run_in_one() {
    let program = vec![
        push(5),
        op(Opcode::DUP),
        op(Opcode::PRT),
        op(Opcode::DEC),
        op1(Opcode::JNZ, 1),
        op(Opcode::HLT),
    ];
    let mut whole = machine_with(program.clone());
    assert_eq!(whole.run(), Status::Halted);
    let mut pieces = machine_with(program);
    let mut runs = 0;
    while pieces.run_for(3) == Status::Ready {
        runs += 1;
    }
    assert!(runs > 3);
    assert_eq!(whole.output(), pieces.output());
    assert_eq!(whole.stack(), pieces.stack());
    assert_eq!(whole.pc(), pieces.pc());
}

#[test]
fn step_executes_one_instruction_of_a_started_machine() {
    let mut vm = machine_with(vec![push(1), push(2)]);
    assert_eq!(vm.step(), Status::Halted);
    assert_eq!(vm.pc(), 0);
    vm.start();
    assert_eq!(vm.status(), Status::Ready);
    assert_eq!(vm.step(), Status::Ready);
    assert_eq!(vm.stack(), &vec![1]);
    assert_eq!(vm.pc(), 1);
    assert_eq!(vm.step(), Status::Ready);
    assert_eq!(vm.step(), Status::Halted);
    assert_eq!(vm.stack(), &vec![1, 2]);
    assert_eq!(vm.pc(), 2);
}

#[test]
fn input_is_awaited_and_pushed() {
    let mut vm = machine_with(vec![push(1), op(Opcode::INP), op(Opcode::PPT)]);
    assert_eq!(vm.run_for(100), Status::AwaitingInput);
    assert_eq!(vm.pc(), 1);
    assert_eq!(vm.step(), Status::AwaitingInput);
    assert_eq!(vm.pc(), 1);
    assert_eq!(vm.supply_input("  -42 \n"), Ok(()));
    assert_eq!(vm.stack(), &vec![1, -42]);
    assert_eq!(vm.pc(), 2);
    assert_eq!(vm.run_for(100), Status::Halted);
    assert_eq!(vm.take_output(), vec![Event::Print(-42)]);
}

#[test]
fn input_that_is_no_number_stops_the_machine() {
    for line in ["", "\n", "abc", "1 2", "1.5", "2147483648", "--1", "0x10"] {
        let mut vm = machine_with(vec![op(Opcode::INP), push(1)]);
        assert_eq!(vm.run_for(100), Status::AwaitingInput);
        assert_eq!(vm.supply_input(line), Err(InputError::NotANumber));
        assert!(!vm.is_running());
        assert_eq!(vm.pc(), 0);
        assert!(vm.stack().is_empty());
        assert_eq!(vm.status(), Status::Halted);
    }
}

#[test]
fn input_that_is_not_awaited_is_refused() {
    let mut vm = machine_with(vec![push(1)]);
    assert_eq!(vm.supply_input("5"), Err(InputError::NotAwaited));
    vm.start();
    assert_eq!(vm.supply_input("5"), Err(InputError::NotAwaited));
    assert!(vm.stack().is_empty());
    assert_eq!(vm.pc(), 0);
    assert!(vm.is_running());
}

#[test]
fn time_is_awaited_and_pushed() {
    let mut vm = machine_with(vec![op(Opcode::TIM), op(Opcode::TIM), op(Opcode::TIM)]);
    assert_eq!(vm.run_for(100), Status::AwaitingTime);
    assert!(vm.supply_time(1_700_000_000));
    assert_eq!(vm.run_for(100), Status::AwaitingTime);
    assert!(vm.supply_time(0x1_8000_0001));
    assert_eq!(vm.run_for(100), Status::AwaitingTime);
    assert!(vm.supply_time(u64::MAX));
    assert_eq!(vm.run_for(100), Status::Halted);
    assert_eq!(vm.stack(), &vec![1_700_000_000, i32::MIN + 1, -1]);
}

#[test]
fn time_that_is_not_awaited_is_refused() {
    let mut vm = machine_with(vec![push(1)]);
    assert!(!vm.supply_time(5));
    vm.start();
    assert!(!vm.supply_time(5));
    assert!(vm.stack().is_empty());
    assert_eq!(vm.pc(), 0);
}

#[test]
fn debug_reports_the_state() {
    let mut vm = machine_with(vec![push(3), push(4), op1(Opcode::SET, 6), push(8), op1(Opcode::STR, 2), op(Opcode::DEB)]);
    vm.define_label("start", 0);
    assert_eq!(vm.run_for(100), Status::Halted);
    let output = vm.take_output();
    assert_eq!(output.len(), 1);
    match &output[0] {
        Event::Debug(snapshot) => {
            assert_eq!(snapshot.pc, 5);
            assert_eq!(snapshot.stack, vec![3]);
            assert_eq!(snapshot.registers, [0, 0, 0, 0, 0, 0, 4, 0]);
            assert_eq!(snapshot.memory.len(), 1);
            assert_eq!(snapshot.memory.get(&2), Some(&8));
            assert_eq!(snapshot.labels.entries(), vec![("start".chars().collect(), 0)]);
        }
        other => panic!("no snapshot: {:?}", other),
    }
    assert_eq!(vm.pc(), 6);
}

#[test]
fn take_output_empties_the_output() {
    let mut vm = ran(vec![push(1), op(Opcode::PRT)]);
    assert_eq!(vm.output(), &vec![Event::Print(1)]);
    assert_eq!(vm.take_output(), vec![Event::Print(1)]);
    assert!(vm.output().is_empty());
    assert!(vm.take_output().is_empty());
    assert_eq!(vm.stack(), &vec![1]);
}

#[test]
fn labels_can_be_defined_and_looked_up() {
    let mut vm = VM::new();
    assert_eq!(vm.label("loop"), None);
    vm.define_label("loop", 4);
    vm.define_label("end", 9);
    vm.define_label("loop", 5);
    assert_eq!(vm.label("loop"), Some(5));
    assert_eq!(vm.label("end"), Some(9));
    assert_eq!(vm.label("Loop"), None);
    assert_eq!(vm.labels().len(), 2);
}
