use evm_core::eval::bitwise::byte;
use evm_core::{
    Capture, ExitError, ExitFatal, ExitReason, ExitRevert, ExitSucceed, Machine, Opcode, Stack,
    Valids, U256,
};

fn machine(code: Vec<u8>, data: Vec<u8>) -> Machine {
    let valids = Valids::compute(&code);
    Machine::new(code, valids, data, 1024, usize::MAX)
}

fn run(m: &mut Machine, steps: u64) -> (u64, Capture<ExitReason, Opcode>) {
    m.run(steps, |_: Opcode, _: &Stack| Ok(()))
}

fn top(m: &Machine) -> U256 {
    m.stack().peek(0).unwrap()
}

fn word(v: u64) -> U256 {
    U256::from_u64(v)
}

fn byte_of(x: U256, i: u64) -> u8 {
    byte(word(i), x).w0 as u8
}

#[test]
fn test_size_needed() {
    assert_eq!(Valids::size_needed(0), 0);
    assert_eq!(Valids::size_needed(1), 1);
    assert_eq!(Valids::size_needed(8), 1);
    assert_eq!(Valids::size_needed(9), 2);
    assert_eq!(Valids::size_needed(16), 2);
    assert_eq!(Valids::size_needed(17), 3);
}

#[test]
fn add_then_stop_and_rerun() {
    let mut m = machine(vec![0x60, 0x05, 0x60, 0x03, 0x01], vec![]);
    let (steps, c) = run(&mut m, 100);
    assert_eq!(steps, 3);
    assert_eq!(c, Capture::Exit(ExitReason::Succeed(ExitSucceed::Stopped)));
    assert_eq!(top(&m), word(8));
    let again = run(&mut m, 100);
    assert_eq!(again, (0, Capture::Exit(ExitReason::Succeed(ExitSucceed::Stopped))));
}

#[test]
fn eq_of_zeros_is_one() {
    let mut m = machine(vec![0x60, 0x00, 0x60, 0x00, 0x14, 0x61], vec![]);
    let (steps, c) = run(&mut m, 3);
    assert_eq!(steps, 3);
    assert_eq!(c, Capture::Exit(ExitReason::StepLimitReached));
    assert_eq!(top(&m), word(1));
}

#[test]
fn sub_wraps() {
    let mut code = vec![0x7f];
    code.extend(vec![0xff; 32]);
    code.extend(vec![0x60, 0x00, 0x03]);
    let mut m = machine(code, vec![]);
    let (_, c) = run(&mut m, 100);
    assert_eq!(c, Capture::Exit(ExitReason::Succeed(ExitSucceed::Stopped)));
    assert_eq!(top(&m), word(1));
}

#[test]
fn two_jumpdests_then_stop() {
    let code = vec![0x5b, 0x5b, 0x00];
    let valids = Valids::compute(&code);
    assert_eq!(valids, vec![0b0000_0011]);
    let mut m = machine(code, vec![]);
    let (steps, c) = run(&mut m, 100);
    assert_eq!(steps, 2);
    assert_eq!(c, Capture::Exit(ExitReason::Succeed(ExitSucceed::Stopped)));
}

#[test]
fn jump_to_push_is_invalid() {
    let mut m = machine(vec![0x60, 0x00, 0x56, 0x00], vec![]);
    let (_, c) = run(&mut m, 100);
    assert_eq!(c, Capture::Exit(ExitReason::Error(ExitError::InvalidJump)));
    assert_eq!(m.position(), &Err(ExitReason::Error(ExitError::InvalidJump)));
    assert_eq!(run(&mut m, 5), (0, Capture::Exit(ExitReason::Error(ExitError::InvalidJump))));
}

#[test]
fn jump_back_to_push_is_invalid() {
    let code = vec![0x60, 0x01, 0x5b, 0x60, 0x00, 0x56];
    let v = Valids::new(Valids::compute(&code));
    assert!(!v.is_valid(0));
    assert!(!v.is_valid(1));
    assert!(v.is_valid(2));
    assert!(!v.is_valid(100));
    let mut m = machine(code, vec![]);
    let (_, c) = run(&mut m, 100);
    assert_eq!(c, Capture::Exit(ExitReason::Error(ExitError::InvalidJump)));
}

#[test]
fn jump_to_jumpdest_succeeds() {
    // PUSH1 4, JUMP, INVALID, JUMPDEST, PUSH1 7
    let mut m = machine(vec![0x60, 0x04, 0x56, 0xfe, 0x5b, 0x60, 0x07], vec![]);
    let (_, c) = run(&mut m, 100);
    assert_eq!(c, Capture::Exit(ExitReason::Succeed(ExitSucceed::Stopped)));
    assert_eq!(top(&m), word(7));
}

#[test]
fn jumpdest_inside_push_is_not_valid() {
    let code = vec![0x61, 0x5b, 0x5b, 0x5b];
    let v = Valids::new(Valids::compute(&code));
    assert!(!v.is_valid(1));
    assert!(!v.is_valid(2));
    assert!(v.is_valid(3));
}

#[test]
fn valids_unchanged_by_trailing_stops() {
    let code = vec![0x60, 0x5b, 0x5b, 0x62, 0x5b, 0x00, 0x5b, 0x5b];
    let mut longer = code.clone();
    longer.extend(vec![0x00; 20]);
    let a = Valids::compute(&code);
    let b = Valids::compute(&longer);
    assert_eq!(&b[..a.len()], &a[..]);
    assert!(b[a.len()..].iter().all(|x| *x == 0));
}

#[test]
fn codecopy_then_mload() {
    let code = vec![0x60, 0x0a, 0x60, 0x00, 0x60, 0x00, 0x39, 0x60, 0x00, 0x51];
    let mut m = machine(code.clone(), vec![]);
    let (_, c) = run(&mut m, 100);
    assert_eq!(c, Capture::Exit(ExitReason::Succeed(ExitSucceed::Stopped)));
    let t = top(&m);
    for i in 0..32 {
        let expect = if i < code.len() { code[i] } else { 0 };
        assert_eq!(byte_of(t, i as u64), expect);
    }
    assert_eq!(m.memory().effective_len(), 32);
}

#[test]
fn mstore_then_return() {
    let mut code = vec![0x7f, 0xde, 0xad, 0xbe, 0xef];
    code.extend(vec![0x00; 28]);
    code.extend(vec![0x60, 0x00, 0x52, 0x60, 0x04, 0x60, 0x00, 0xf3]);
    let mut m = machine(code, vec![]);
    let (_, c) = run(&mut m, 100);
    assert_eq!(c, Capture::Exit(ExitReason::Succeed(ExitSucceed::Returned)));
    assert_eq!(m.return_value(), vec![0xde, 0xad, 0xbe, 0xef]);
    assert_eq!(m.return_value_len(), 4);
}

#[test]
fn revert_sets_return_range() {
    // PUSH1 0x2a, PUSH1 0, MSTORE8, PUSH1 2, PUSH1 0, REVERT
    let code = vec![0x60, 0x2a, 0x60, 0x00, 0x53, 0x60, 0x02, 0x60, 0x00, 0xfd];
    let mut m = machine(code, vec![]);
    let (_, c) = run(&mut m, 100);
    assert_eq!(c, Capture::Exit(ExitReason::Revert(ExitRevert::Reverted)));
    assert_eq!(m.return_value(), vec![0x2a, 0x00]);
}

#[test]
fn calldata_load_pads_with_zero() {
    // PUSH1 1, CALLDATALOAD, CALLDATASIZE
    let mut m = machine(vec![0x60, 0x01, 0x35, 0x36], vec![0x11, 0x22, 0x33]);
    let (_, c) = run(&mut m, 100);
    assert_eq!(c, Capture::Exit(ExitReason::Succeed(ExitSucceed::Stopped)));
    assert_eq!(top(&m), word(3));
    let loaded = m.stack().peek(1).unwrap();
    assert_eq!(byte_of(loaded, 0), 0x22);
    assert_eq!(byte_of(loaded, 1), 0x33);
    assert_eq!(byte_of(loaded, 2), 0x00);
}

#[test]
fn push_past_end_pads_right() {
    // PUSH2 with one byte left
    let mut m = machine(vec![0x61, 0xab], vec![]);
    let _ = run(&mut m, 100);
    assert_eq!(top(&m), word(0xab00));
}

#[test]
fn stack_overflow_at_limit() {
    let code = vec![0x5f, 0x5f, 0x5f];
    let valids = Valids::compute(&code);
    let mut m = Machine::new(code, valids, vec![], 2, usize::MAX);
    let (_, c) = run(&mut m, 100);
    assert_eq!(c, Capture::Exit(ExitReason::Error(ExitError::StackOverflow)));
    assert_eq!(m.stack().len(), 2);
}

#[test]
fn stack_underflow_on_empty() {
    let mut m = machine(vec![0x01], vec![]);
    let (_, c) = run(&mut m, 100);
    assert_eq!(c, Capture::Exit(ExitReason::Error(ExitError::StackUnderflow)));
}

#[test]
fn memory_limit_gives_invalid_range() {
    // PUSH1 0x40, MLOAD with a 64-byte limit: needs 96 bytes
    let code = vec![0x60, 0x40, 0x51];
    let valids = Valids::compute(&code);
    let mut m = Machine::new(code, valids, vec![], 1024, 64);
    let (_, c) = run(&mut m, 100);
    assert_eq!(c, Capture::Exit(ExitReason::Error(ExitError::InvalidRange)));
    assert_eq!(m.memory().effective_len(), 0);
}

#[test]
fn huge_offset_is_not_supported() {
    // PUSH32 of 2^255, MLOAD
    let mut code = vec![0x7f, 0x80];
    code.extend(vec![0x00; 31]);
    code.push(0x51);
    let mut m = machine(code, vec![]);
    let (_, c) = run(&mut m, 100);
    assert_eq!(c, Capture::Exit(ExitReason::Fatal(ExitFatal::NotSupported)));
}

#[test]
fn designated_invalid() {
    let mut m = machine(vec![0xfe], vec![]);
    let (_, c) = run(&mut m, 100);
    assert_eq!(c, Capture::Exit(ExitReason::Error(ExitError::DesignatedInvalid)));
}

#[test]
fn external_opcode_traps_and_resumes() {
    // PUSH1 1, SLOAD, PUSH1 2
    let mut m = machine(vec![0x60, 0x01, 0x54, 0x60, 0x02], vec![]);
    let (steps, c) = run(&mut m, 100);
    assert_eq!(steps, 1);
    assert_eq!(c, Capture::Trap(Opcode(0x54)));
    assert_eq!(m.position(), &Ok(3));
    let (_, c) = run(&mut m, 100);
    assert_eq!(c, Capture::Exit(ExitReason::Succeed(ExitSucceed::Stopped)));
    assert_eq!(top(&m), word(2));
}

#[test]
fn pre_validate_error_is_latched() {
    let mut m = machine(vec![0x60, 0x01, 0x60, 0x02], vec![]);
    let (steps, c) = m.run(10, |op: Opcode, s: &Stack| {
        if s.len() > 0 && op == Opcode(0x60) { Err(ExitError::OutOfGas) } else { Ok(()) }
    });
    assert_eq!(steps, 1);
    assert_eq!(c, Capture::Exit(ExitReason::Error(ExitError::OutOfGas)));
    assert_eq!(m.stack().len(), 1);
    assert_eq!(run(&mut m, 10), (0, Capture::Exit(ExitReason::Error(ExitError::OutOfGas))));
}

#[test]
fn explicit_exit_is_latched() {
    let mut m = machine(vec![0x60, 0x01], vec![]);
    m.exit(ExitReason::Fatal(ExitFatal::UnhandledInterrupt));
    assert!(m.inspect().is_none());
    assert_eq!(run(&mut m, 3), (0, Capture::Exit(ExitReason::Fatal(ExitFatal::UnhandledInterrupt))));
}

#[test]
fn inspect_shows_next_opcode() {
    let mut m = machine(vec![0x60, 0x01, 0x50], vec![]);
    assert_eq!(m.inspect().map(|(o, _)| o), Some(Opcode(0x60)));
    let _ = run(&mut m, 1);
    let (o, s) = m.inspect().unwrap();
    assert_eq!(o, Opcode(0x50));
    assert_eq!(s.len(), 1);
}

#[test]
fn steps_form_a_prefix() {
    let code = vec![0x60, 0x02, 0x60, 0x03, 0x02, 0x80, 0x01, 0x00];
    for k in 1..8u64 {
        let mut a = machine(code.clone(), vec![]);
        let (sa, _) = run(&mut a, k);
        let mut b = machine(code.clone(), vec![]);
        let _ = run(&mut b, k + 1);
        let mut a2 = machine(code.clone(), vec![]);
        let _ = run(&mut a2, k);
        let _ = run(&mut a2, 1);
        assert!(sa <= k);
        assert_eq!(a2.stack().data(), b.stack().data());
    }
    let mut m = machine(code, vec![]);
    let _ = run(&mut m, 100);
    assert_eq!(top(&m), word(12));
}

#[test]
fn exit_reason_kinds() {
    assert!(ExitReason::Succeed(ExitSucceed::Returned).is_succeed());
    assert!(ExitReason::Error(ExitError::OutOfGas).is_error());
    assert!(ExitReason::Revert(ExitRevert::Reverted).is_revert());
    assert!(ExitReason::Fatal(ExitFatal::CallErrorAsFatal(ExitError::OutOfFund)).is_fatal());
    assert!(!ExitReason::StepLimitReached.is_succeed());
    assert!(!ExitReason::StepLimitReached.is_error());
}

#[test]
fn exit_reason_from_parts() {
    assert_eq!(ExitReason::from(ExitSucceed::Stopped), ExitReason::Succeed(ExitSucceed::Stopped));
    assert_eq!(ExitReason::from(ExitRevert::Reverted), ExitReason::Revert(ExitRevert::Reverted));
    assert_eq!(ExitReason::from(ExitError::OutOfGas), ExitReason::Error(ExitError::OutOfGas));
    assert_eq!(
        ExitReason::from(ExitFatal::NotSupported),
        ExitReason::Fatal(ExitFatal::NotSupported)
    );
}

#[test]
fn zero_steps_reports_step_limit() {
    let mut m = machine(vec![0x00], vec![]);
    assert_eq!(run(&mut m, 0), (0, Capture::Exit(ExitReason::StepLimitReached)));
    assert_eq!(m.position(), &Ok(0));
    let _ = run(&mut m, 1);
    assert_eq!(run(&mut m, 0), (0, Capture::Exit(ExitReason::StepLimitReached)));
    assert_eq!(run(&mut m, 1), (0, Capture::Exit(ExitReason::Succeed(ExitSucceed::Stopped))));
}

#[test]
fn empty_code_stops_at_once() {
    let mut m = machine(vec![], vec![]);
    assert_eq!(run(&mut m, 10), (0, Capture::Exit(ExitReason::Succeed(ExitSucceed::Stopped))));
}

#[test]
fn msize_follows_high_water_mark() {
    // PUSH1 7, PUSH1 0x21, MSTORE, MSIZE, PUSH1 0, MLOAD, POP, MSIZE
    let code = vec![0x60, 0x07, 0x60, 0x21, 0x52, 0x59, 0x60, 0x00, 0x51, 0x50, 0x59];
    let mut m = machine(code, vec![]);
    let (_, c) = run(&mut m, 100);
    assert_eq!(c, Capture::Exit(ExitReason::Succeed(ExitSucceed::Stopped)));
    assert_eq!(top(&m), word(96));
    assert_eq!(m.stack().peek(1).unwrap(), word(96));
}
