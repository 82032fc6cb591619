//! The parameter indices that the change callbacks report to the editor.
use vstd::prelude::*;

verus! {

/// Hands out parameter indices in the order in which the callbacks are
/// created: the first callback reports index 0, the next 1, and so on. The
/// parameters therefore have to get their callbacks in the order in which
/// they are declared, which is the order the editor lists them in.
#[derive(Debug)]
pub struct ParamIndexCounter {
    counter: usize,
}

impl View for ParamIndexCounter {
    type V = nat;

    /// The index the next callback will report.
    closed spec fn view(&self) -> nat {
        self.counter as nat
    }
}

impl ParamIndexCounter {
    /// A counter that starts at index 0.
    pub fn new() -> (r: Self)
        ensures
            r@ == 0,
    {
        ParamIndexCounter { counter: 0 }
    }

    /// The index for the callback being created; the next one gets the index
    /// after it.
    pub fn next_index(&mut self) -> (r: usize)
        requires
            old(self)@ < usize::MAX,
        ensures
            r == old(self)@,
            final(self)@ == old(self)@ + 1,
    {
        let index = self.counter;
        self.counter = self.counter + 1;
        index
    }

    /// How many indices have been handed out.
    pub fn counter(&self) -> (r: usize)
        ensures
            r == self@,
    {
        self.counter
    }
}

} // verus!
