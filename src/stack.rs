use vstd::prelude::*;

verus! {

/// A last-in first-out stack over a growable vector.
#[derive(Debug, Clone)]
pub struct Stack<T> {
    pub inner: Vec<T>,
}

impl<T> View for Stack<T> {
    type V = Seq<T>;

    open spec fn view(&self) -> Seq<T> {
        self.inner@
    }
}

impl<T: Clone> Stack<T> {
    pub fn make() -> (r: Self)
        ensures
            r@ == Seq::<T>::empty(),
    {
        Self { inner: Vec::new() }
    }

    pub fn push(&mut self, frame: T)
        ensures
            final(self)@ == old(self)@.push(frame),
    {
        self.inner.push(frame);
    }

    pub fn pop(&mut self) -> (r: Option<T>)
        ensures
            old(self)@.len() == 0 ==> r is None && final(self)@ == old(self)@,
            old(self)@.len() > 0 ==> r == Some(old(self)@.last()) && final(self)@ == old(self)@.drop_last(),
    {
        self.inner.pop()
    }

    pub fn is_empty(&self) -> (r: bool)
        ensures
            r == (self@.len() == 0),
    {
        self.inner.len() == 0
    }
}

} // verus!
