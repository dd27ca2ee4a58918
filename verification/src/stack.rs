//! The sixteen-entry return-address stack.

use vstd::prelude::*;

verus! {

/// Number of entries the stack can hold.
pub const STACK_SIZE: usize = 16;

/// Error raised by a stack operation that cannot be carried out.
#[derive(Debug, Clone, Copy, PartialEq, Eq, Structural)]
pub enum StackError {
    /// A push onto a full stack.
    Overflow { capacity: usize, attempted: usize },
    /// A pop from an empty stack.
    Underflow,
}

/// A stack as plain values.
pub struct StackView {
    /// The sixteen storage slots, including those above the top.
    pub slots: Seq<u16>,
    /// The number of entries on the stack.
    pub depth: nat,
}

impl StackView {
    /// The entries on the stack, bottom first.
    pub open spec fn entries(self) -> Seq<u16> {
        self.slots.subrange(0, self.depth as int)
    }
}

/// The result and stack of pushing `value` onto `s`: a full stack is left as
/// it is and reports an overflow.
pub open spec fn spec_push(s: StackView, value: u16) -> (Result<(), StackError>, StackView) {
    if s.depth < STACK_SIZE {
        (Ok(()), StackView { slots: s.slots.update(s.depth as int, value), depth: s.depth + 1 })
    } else {
        (Err(StackError::Overflow { capacity: 16, attempted: s.depth as usize }), s)
    }
}

/// The result and stack of popping `s`: an empty stack is left as it is and
/// reports an underflow.
pub open spec fn spec_pop(s: StackView) -> (Result<u16, StackError>, StackView) {
    if s.depth > 0 {
        (Ok(s.slots[s.depth - 1]), StackView { depth: (s.depth - 1) as nat, ..s })
    } else {
        (Err(StackError::Underflow), s)
    }
}

/// A fixed-capacity stack of return addresses.
pub struct Stack {
    stack: [u16; STACK_SIZE],
    sp: u8,
}

impl View for Stack {
    type V = StackView;

    closed spec fn view(&self) -> StackView {
        StackView { slots: self.stack@, depth: self.sp as nat }
    }
}

impl Stack {
    #[verifier::type_invariant]
    spec fn inv(self) -> bool {
        self.sp as int <= STACK_SIZE
    }

    /// There are as many slots as the capacity.
    pub proof fn lemma_slots_len(&self)
        ensures
            self@.slots.len() == STACK_SIZE,
    {
    }

    /// An empty stack whose slots are all zero.
    pub fn new() -> (s: Self)
        ensures
            s@ == (StackView { slots: Seq::new(STACK_SIZE as nat, |i: int| 0u16), depth: 0 }),
    {
        let s = Stack { stack: [0; STACK_SIZE], sp: 0 };
        assert(s@.slots =~= Seq::new(STACK_SIZE as nat, |i: int| 0u16));
        s
    }

    /// Pushes `value`; a full stack is left as it is and reports an overflow.
    pub fn push(&mut self, value: u16) -> (res: Result<(), StackError>)
        ensures
            (res, final(self)@) == spec_push(old(self)@, value),
    {
        proof {
            use_type_invariant(&*self);
        }
        if (self.sp as usize) >= STACK_SIZE {
            return Err(StackError::Overflow { capacity: 16, attempted: self.sp as usize });
        }
        self.stack[self.sp as usize] = value;
        self.sp = self.sp + 1;
        Ok(())
    }

    /// Pops the top entry; an empty stack is left as it is and reports an
    /// underflow.
    pub fn pop(&mut self) -> (res: Result<u16, StackError>)
        ensures
            (res, final(self)@) == spec_pop(old(self)@),
    {
        proof {
            use_type_invariant(&*self);
        }
        if (self.sp as usize) == 0 {
            return Err(StackError::Underflow);
        }
        self.sp = self.sp - 1;
        Ok(self.stack[self.sp as usize])
    }

    /// The number of entries on the stack.
    pub fn sp(&self) -> (n: u8)
        ensures
            n == self@.depth,
    {
        self.sp
    }

    /// A copy of the sixteen storage slots.
    pub fn slots(&self) -> (a: [u16; STACK_SIZE])
        ensures
            a@ == self@.slots,
    {
        self.stack
    }
}

/// Popping right after pushing `value` onto a stack that is not full gives
/// back `value` and the entries the stack had before the push.
pub proof fn lemma_push_then_pop(s: StackView, value: u16)
    requires
        s.depth < STACK_SIZE,
        s.slots.len() == STACK_SIZE,
    ensures
        spec_push(s, value).0 is Ok,
        spec_pop(spec_push(s, value).1).0 == Ok::<u16, StackError>(value),
        spec_pop(spec_push(s, value).1).1.depth == s.depth,
        spec_pop(spec_push(s, value).1).1.entries() == s.entries(),
{
    assert(spec_pop(spec_push(s, value).1).1.entries() =~= s.entries());
}

/// Popping a non-empty stack and pushing the popped value back gives the
/// stack that was popped.
pub proof fn lemma_pop_then_push(s: StackView)
    requires
        s.depth > 0,
        s.depth <= STACK_SIZE,
        s.slots.len() == STACK_SIZE,
    ensures
        spec_pop(s).0 is Ok,
        spec_push(spec_pop(s).1, spec_pop(s).0->Ok_0) == (Ok::<(), StackError>(()), s),
{
    assert(s.slots.update(s.depth - 1, s.slots[s.depth - 1]) =~= s.slots);
}

} // verus!
