//! A last-in-first-out store of return addresses. The machine bounds its
//! depth to 16 entries; the bound is enforced by the executor's
//! well-formedness invariant, not by the container itself.

use vstd::prelude::*;

verus! {

/// A simple stack backed by a vector; its view is the sequence of elements
/// from bottom to top.
pub struct Stack<T> {
    contents: Vec<T>,
}

impl<T> View for Stack<T> {
    type V = Seq<T>;

    closed spec fn view(&self) -> Seq<T> {
        self.contents@
    }
}

impl<T> Stack<T> {
    /// Creates an empty stack.
    pub fn new() -> (r: Stack<T>)
        ensures
            r@ == Seq::<T>::empty(),
    {
        Stack { contents: Vec::new() }
    }

    /// Pushes `element` on top of the stack.
    pub fn push(&mut self, element: T)
        ensures
            final(self)@ == old(self)@.push(element),
    {
        self.contents.push(element)
    }

    /// Removes and returns the top element, or `None` when the stack is
    /// empty (in which case the stack is unchanged).
    pub fn pop(&mut self) -> (r: Option<T>)
        ensures
            match r {
                Some(e) => old(self)@.len() > 0 && e == old(self)@.last() && final(self)@
                    == old(self)@.drop_last(),
                None => old(self)@.len() == 0 && final(self)@ == old(self)@,
            },
    {
        self.contents.pop()
    }

    /// The number of elements currently on the stack.
    pub fn len(&self) -> (r: usize)
        ensures
            r == self@.len(),
    {
        self.contents.len()
    }
}

} // verus!
