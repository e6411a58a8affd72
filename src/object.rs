use vstd::prelude::*;

verus! {

/// The closed set of primitive types of the language.
#[derive(Debug, Clone, Copy, PartialEq, Eq, Structural)]
pub enum Type {
    Integer,
    Boolean,
    String,
    Void,
}

/// A runtime value.
#[derive(Debug, Clone, PartialEq)]
pub enum Object {
    Integer(i32),
    Boolean(bool),
    String(String),
}

impl Object {
    /// A copy of this value, equal to it.
    pub fn duplicate(&self) -> (r: Object)
        ensures
            r == *self,
    {
        match self {
            Object::Integer(x) => Object::Integer(*x),
            Object::Boolean(b) => Object::Boolean(*b),
            Object::String(s) => Object::String(s.clone()),
        }
    }
}

/// An entry of the constant pool.
#[derive(Debug, Clone, PartialEq)]
pub enum PoolEntry {
    Object(Object),
}

impl PoolEntry {
    pub fn duplicate(&self) -> (r: PoolEntry)
        ensures
            r == *self,
    {
        match self {
            PoolEntry::Object(o) => PoolEntry::Object(o.duplicate()),
        }
    }
}

/// The append-only constant pool of a program.
#[derive(Debug, Clone)]
pub struct Pool {
    pub entries: Vec<PoolEntry>,
}

impl View for Pool {
    type V = Seq<PoolEntry>;

    open spec fn view(&self) -> Seq<PoolEntry> {
        self.entries@
    }
}

impl Pool {
    pub fn make() -> (r: Pool)
        ensures
            r@ == Seq::<PoolEntry>::empty(),
    {
        Pool { entries: Vec::new() }
    }

    /// Appends an entry and returns its index, which stays valid from then on.
    pub fn append(&mut self, entry: PoolEntry) -> (r: usize)
        ensures
            r == old(self)@.len(),
            final(self)@ == old(self)@.push(entry),
    {
        let index = self.entries.len();
        self.entries.push(entry);
        index
    }

    pub fn len(&self) -> (r: usize)
        ensures
            r == self@.len(),
    {
        self.entries.len()
    }

    /// The entry at `index`, or `None` past the end.
    pub fn get(&self, index: usize) -> (r: Option<PoolEntry>)
        ensures
            index < self@.len() ==> r == Some(self@[index as int]),
            index >= self@.len() ==> r is None,
    {
        if index < self.entries.len() {
            Some(self.entries[index].duplicate())
        } else {
            None
        }
    }

    pub fn duplicate(&self) -> (r: Pool)
        ensures
            r@ == self@,
    {
        let mut entries: Vec<PoolEntry> = Vec::new();
        let mut i: usize = 0;
        while i < self.entries.len()
            invariant
                i <= self@.len(),
                entries@ == self@.subrange(0, i as int),
            decreases self@.len() - i,
        {
            entries.push(self.entries[i].duplicate());
            i = i + 1;
            proof {
                assert(entries@ =~= self@.subrange(0, i as int));
            }
        }
        proof {
            assert(entries@ =~= self@);
        }
        Pool { entries }
    }
}

} // verus!
