use vstd::prelude::*;

verus! {

/// Most values a stack holds; a push beyond this evicts the oldest value.
pub const STACK_CAPACITY: usize = 15;

/// The stack after pushing `x`: appended while there is room, otherwise the
/// oldest (bottom) value is dropped to make room.
pub open spec fn spec_push(s: Seq<u16>, x: u16) -> Seq<u16> {
    if s.len() < STACK_CAPACITY {
        s.push(x)
    } else {
        s.drop_first().push(x)
    }
}

/// The value a pop returns: the top value, or 0 when the stack is empty.
pub open spec fn spec_top(s: Seq<u16>) -> u16 {
    if s.len() > 0 {
        s.last()
    } else {
        0
    }
}

/// The stack after a pop; popping an empty stack leaves it empty.
pub open spec fn spec_pop(s: Seq<u16>) -> Seq<u16> {
    if s.len() > 0 {
        s.drop_last()
    } else {
        s
    }
}

/// The value `depth` places below the top, or 0 where the stack is not that deep.
pub open spec fn spec_peek(s: Seq<u16>, depth: nat) -> u16 {
    if depth < s.len() {
        s[s.len() - 1 - depth]
    } else {
        0
    }
}

/// A bounded stack of 16-bit values; its view lists the values bottom first.
pub struct Stack {
    items: Vec<u16>,
}

impl View for Stack {
    type V = Seq<u16>;

    closed spec fn view(&self) -> Seq<u16> {
        self.items@
    }
}

impl Stack {
    pub open spec fn wf(&self) -> bool {
        self@.len() <= STACK_CAPACITY
    }

    pub fn new() -> (r: Stack)
        ensures
            r@ == Seq::<u16>::empty(),
            r.wf(),
    {
        Stack { items: Vec::new() }
    }

    /// Pushes `item`; answers false when the stack was full and its oldest
    /// value was evicted.
    pub fn push(&mut self, item: u16) -> (r: bool)
        requires
            old(self).wf(),
        ensures
            final(self).wf(),
            final(self)@ == spec_push(old(self)@, item),
            r == (old(self)@.len() < STACK_CAPACITY),
    {
        if self.items.len() < STACK_CAPACITY {
            self.items.push(item);
            return true;
        }
        self.items.remove(0);
        self.items.push(item);
        false
    }

    /// Pops the top value; an empty stack gives 0 and stays empty.
    pub fn pop(&mut self) -> (r: u16)
        requires
            old(self).wf(),
        ensures
            final(self).wf(),
            r == spec_top(old(self)@),
            final(self)@ == spec_pop(old(self)@),
    {
        match self.items.pop() {
            Some(v) => v,
            None => 0,
        }
    }

    /// Reads the value `depth` places below the top without changing the stack.
    pub fn peek(&self, depth: usize) -> (r: u16)
        ensures
            r == spec_peek(self@, depth as nat),
    {
        let n = self.items.len();
        if depth < n {
            self.items[n - 1 - depth]
        } else {
            0
        }
    }

    /// Number of values held.
    pub fn len(&self) -> (r: usize)
        ensures
            r == self@.len(),
    {
        self.items.len()
    }
}

} // verus!
