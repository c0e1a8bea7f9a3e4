use evm_core::{ExitError, Memory, Stack, U256};

#[test]
fn resize_rounds_to_words() {
    let mut m = Memory::new(1024);
    assert_eq!(m.resize_offset(10, 0), Ok(()));
    assert_eq!(m.effective_len(), 0);
    assert_eq!(m.resize_offset(10, 1), Ok(()));
    assert_eq!(m.effective_len(), 32);
    assert_eq!(m.resize_offset(40, 30), Ok(()));
    assert_eq!(m.effective_len(), 96);
    assert_eq!(m.resize_offset(0, 8), Ok(()));
    assert_eq!(m.effective_len(), 96);
    assert_eq!(m.resize_offset(1000, 100), Err(ExitError::InvalidRange));
    assert_eq!(m.resize_offset(usize::MAX, 2), Err(ExitError::InvalidRange));
    assert_eq!(m.effective_len(), 96);
}

#[test]
fn get_reads_zero_past_end() {
    let mut m = Memory::new(1024);
    assert_eq!(m.set(2, &[1, 2, 3], None), Ok(()));
    assert_eq!(m.get(0, 6), vec![0, 0, 1, 2, 3, 0]);
    assert_eq!(m.set(3, &[9, 9, 9], Some(1)), Ok(()));
    assert_eq!(m.get(2, 3), vec![1, 9, 3]);
    assert_eq!(m.set(usize::MAX, &[1, 2], None), Err(ExitError::InvalidRange));
}

#[test]
fn copy_large_fills_with_zero() {
    let mut m = Memory::new(1024);
    assert_eq!(m.copy_large(0, 2, 5, &[1, 2, 3, 4]), Ok(()));
    assert_eq!(m.get(0, 6), vec![3, 4, 0, 0, 0, 0]);
    assert_eq!(m.copy_large(0, usize::MAX, 2, &[1, 2, 3, 4]), Ok(()));
    assert_eq!(m.get(0, 2), vec![0, 0]);
}

#[test]
fn stack_operations() {
    let mut s = Stack::new(3);
    assert_eq!(s.pop(), Err(ExitError::StackUnderflow));
    for v in 1..=3u64 {
        assert_eq!(s.push(U256::from_u64(v)), Ok(()));
    }
    assert_eq!(s.push(U256::from_u64(4)), Err(ExitError::StackOverflow));
    assert_eq!(s.peek(0), Ok(U256::from_u64(3)));
    assert_eq!(s.peek(2), Ok(U256::from_u64(1)));
    assert_eq!(s.peek(3), Err(ExitError::StackUnderflow));
    assert_eq!(s.swap(2), Ok(()));
    assert_eq!(s.peek(0), Ok(U256::from_u64(1)));
    assert_eq!(s.peek(2), Ok(U256::from_u64(3)));
    assert_eq!(s.swap(3), Err(ExitError::StackUnderflow));
    assert_eq!(s.dup(1), Err(ExitError::StackOverflow));
    assert_eq!(s.pop(), Ok(U256::from_u64(1)));
    assert_eq!(s.dup(2), Ok(()));
    assert_eq!(s.peek(0), Ok(U256::from_u64(3)));
    assert_eq!(s.dup(4), Err(ExitError::StackUnderflow));
    assert_eq!(s.len(), 3);
    assert_eq!(s.limit(), 3);
}
