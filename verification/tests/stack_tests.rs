use chip8::stack::{Stack, StackError, STACK_SIZE};

#[test]
fn stack_init() {
    let stack = Stack::new();
    assert_eq!(stack.sp(), 0);
    assert_eq!(stack.slots().len(), 16);
    for sp in 0..=15 {
        assert_eq!(0, stack.slots()[sp]);
    }
}
#[test]
fn stack_push() {
    let mut stack = Stack::new();

    stack.push(16).unwrap();

    assert_eq!(1, stack.sp());
    assert_eq!(16, stack.slots()[0]);
}
#[test]
fn push_full_returns_overflow() {
    let capacity = STACK_SIZE;
    let mut stack = Stack::new();
    for i in 0..16 {
        stack.push(i).unwrap();
    }

    assert_eq!(
        Err(StackError::Overflow {
            capacity,
            attempted: 16,
        }),
        stack.push(99),
    );
}
#[test]
fn stack_pop() {
    let mut stack = Stack::new();

    stack.push(16).unwrap();

    assert_eq!(1, stack.sp());
    assert_eq!(16, stack.pop().unwrap());
    assert_eq!(0, stack.sp());
}
#[test]
fn pop_empty_returns_underflow() {
    let mut stack = Stack::new();
    assert_eq!(
        Err(StackError::Underflow),
        stack.pop(),
    );
}
