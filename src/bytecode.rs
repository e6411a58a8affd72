use vstd::prelude::*;
use crate::object::Pool;

verus! {

/// An immediate operand of `Push`: values small enough to be inlined.
#[derive(Debug, Clone, Copy, PartialEq, Eq, Structural)]
pub enum PushOperand {
    Integer(i32),
    Boolean(bool),
}

/// One instruction. Jump targets are instruction indices in the same stream.
#[derive(Debug, Clone, PartialEq)]
pub enum Opcode {
    Nop,
    Push(PushOperand),
    Ldc(usize),
    LLoad(usize),
    LStore(usize),
    IAdd,
    ICmpGT,
    Jump(usize),
    JumpIfFalse(usize),
    Invoke(String),
    Return,
    ReturnTop,
}

impl Opcode {
    pub fn duplicate(&self) -> (r: Opcode)
        ensures
            r == *self,
    {
        match self {
            Opcode::Nop => Opcode::Nop,
            Opcode::Push(p) => Opcode::Push(*p),
            Opcode::Ldc(i) => Opcode::Ldc(*i),
            Opcode::LLoad(i) => Opcode::LLoad(*i),
            Opcode::LStore(i) => Opcode::LStore(*i),
            Opcode::IAdd => Opcode::IAdd,
            Opcode::ICmpGT => Opcode::ICmpGT,
            Opcode::Jump(t) => Opcode::Jump(*t),
            Opcode::JumpIfFalse(t) => Opcode::JumpIfFalse(*t),
            Opcode::Invoke(name) => Opcode::Invoke(name.clone()),
            Opcode::Return => Opcode::Return,
            Opcode::ReturnTop => Opcode::ReturnTop,
        }
    }
}

/// An instruction stream addressed by instruction index: every opcode takes one slot.
#[derive(Debug, Clone)]
pub struct ByteCodeStream {
    pub code: Vec<Opcode>,
}

impl View for ByteCodeStream {
    type V = Seq<Opcode>;

    open spec fn view(&self) -> Seq<Opcode> {
        self.code@
    }
}

impl ByteCodeStream {
    pub fn empty() -> (r: ByteCodeStream)
        ensures
            r@ == Seq::<Opcode>::empty(),
    {
        ByteCodeStream { code: Vec::new() }
    }

    pub fn push(&mut self, op: Opcode)
        ensures
            final(self)@ == old(self)@.push(op),
    {
        self.code.push(op);
    }

    /// Replaces the instruction at `index`; used to patch a placeholder once a jump target is known.
    pub fn push_at(&mut self, op: Opcode, index: usize)
        requires
            index < old(self)@.len(),
        ensures
            final(self)@ == old(self)@.update(index as int, op),
    {
        self.code.set(index, op);
    }

    /// The index that the next pushed instruction will take.
    pub fn get_pos(&self) -> (r: usize)
        ensures
            r == self@.len(),
    {
        self.code.len()
    }

    /// The instruction at `index`, or `None` past the end.
    pub fn get_at(&self, index: usize) -> (r: Option<Opcode>)
        ensures
            index < self@.len() ==> r == Some(self@[index as int]),
            index >= self@.len() ==> r is None,
    {
        if index < self.code.len() {
            Some(self.code[index].duplicate())
        } else {
            None
        }
    }

    pub fn clear(&mut self)
        ensures
            final(self)@ == Seq::<Opcode>::empty(),
    {
        self.code.clear();
    }

    pub fn duplicate(&self) -> (r: ByteCodeStream)
        ensures
            r@ == self@,
    {
        let mut code: Vec<Opcode> = Vec::new();
        let mut i: usize = 0;
        while i < self.code.len()
            invariant
                i <= self@.len(),
                code@ == self@.subrange(0, i as int),
            decreases self@.len() - i,
        {
            code.push(self.code[i].duplicate());
            i = i + 1;
            proof {
                assert(code@ =~= self@.subrange(0, i as int));
            }
        }
        proof {
            assert(code@ =~= self@);
        }
        ByteCodeStream { code }
    }
}

/// A compiled user function.
#[derive(Debug, Clone)]
pub struct DefinedFn {
    pub arity: usize,
    pub code: ByteCodeStream,
    pub max_locals: usize,
}

impl DefinedFn {
    pub fn duplicate(&self) -> (r: DefinedFn)
        ensures
            r.arity == self.arity,
            r.code@ == self.code@,
            r.max_locals == self.max_locals,
    {
        DefinedFn { arity: self.arity, code: self.code.duplicate(), max_locals: self.max_locals }
    }
}

/// The index of the first entry of `entries` named `name`, if any.
pub open spec fn find_name<V>(entries: Seq<(String, V)>, name: Seq<char>) -> Option<int>
    decreases entries.len(),
{
    if entries.len() == 0 {
        None
    } else if entries[0].0@ == name {
        Some(0)
    } else {
        match find_name(entries.drop_first(), name) {
            Some(i) => Some(i + 1),
            None => None,
        }
    }
}

pub proof fn lemma_find_name<V>(entries: Seq<(String, V)>, name: Seq<char>)
    ensures
        match find_name(entries, name) {
            Some(i) => 0 <= i < entries.len() && entries[i].0@ == name && forall|j: int|
                0 <= j < i ==> entries[j].0@ != name,
            None => forall|j: int| 0 <= j < entries.len() ==> entries[j].0@ != name,
        },
    decreases entries.len(),
{
    if entries.len() > 0 {
        lemma_find_name(entries.drop_first(), name);
        if entries[0].0@ != name {
            match find_name(entries.drop_first(), name) {
                Some(i) => {
                    assert forall|j: int| 0 <= j < i + 1 implies entries[j].0@ != name by {
                        if j > 0 {
                            assert(entries[j] == entries.drop_first()[j - 1]);
                        }
                    }
                },
                None => {
                    assert forall|j: int| 0 <= j < entries.len() implies entries[j].0@ != name by {
                        if j > 0 {
                            assert(entries[j] == entries.drop_first()[j - 1]);
                        }
                    }
                },
            }
        }
    }
}

/// The functions of a program, by name. A name resolves to its first entry; `insert` replaces the
/// entry of a known name, so tables built by `make` and `insert` hold each name once (`names_unique`).
#[derive(Debug, Clone)]
pub struct FnTable {
    pub entries: Vec<(String, DefinedFn)>,
}

/// What a function table maps a name to: arity, code and local slot count.
pub struct FnModel {
    pub arity: nat,
    pub code: Seq<Opcode>,
    pub max_locals: nat,
}

pub open spec fn fn_model(f: DefinedFn) -> FnModel {
    FnModel { arity: f.arity as nat, code: f.code@, max_locals: f.max_locals as nat }
}

impl FnTable {
    /// The entry that `name` resolves to.
    pub open spec fn lookup(&self, name: Seq<char>) -> Option<FnModel> {
        match find_name(self.entries@, name) {
            Some(i) => Some(fn_model(self.entries@[i].1)),
            None => None,
        }
    }

    /// No name has two entries.
    pub open spec fn names_unique(&self) -> bool {
        forall|i: int, j: int|
            0 <= i < j < self.entries@.len() ==> self.entries@[i].0@ != self.entries@[j].0@
    }

    /// The table as a map from names to functions.
    pub open spec fn model(&self) -> Map<Seq<char>, FnModel> {
        Map::new(|n: Seq<char>| self.lookup(n) is Some, |n: Seq<char>| self.lookup(n)->0)
    }

    pub fn make() -> (r: FnTable)
        ensures
            forall|n: Seq<char>| r.lookup(n) is None,
            r.model() == Map::<Seq<char>, FnModel>::empty(),
            r.names_unique(),
    {
        let r = FnTable { entries: Vec::new() };
        proof {
            assert(r.model() =~= Map::<Seq<char>, FnModel>::empty());
        }
        r
    }

    fn position(&self, name: &String) -> (r: Option<usize>)
        ensures
            r matches Some(i) ==> i < self.entries@.len() && find_name(self.entries@, name@) == Some(i as int),
            r is None ==> find_name(self.entries@, name@) is None,
    {
        proof {
            lemma_find_name(self.entries@, name@);
        }
        let mut i: usize = 0;
        while i < self.entries.len()
            invariant
                i <= self.entries@.len(),
                forall|j: int| 0 <= j < i ==> self.entries@[j].0@ != name@,
                match find_name(self.entries@, name@) {
                    Some(k) => 0 <= k < self.entries@.len() && self.entries@[k].0@ == name@ && forall|j: int|
                        0 <= j < k ==> self.entries@[j].0@ != name@,
                    None => forall|j: int| 0 <= j < self.entries@.len() ==> self.entries@[j].0@ != name@,
                },
            decreases self.entries@.len() - i,
        {
            if self.entries[i].0 == *name {
                return Some(i);
            }
            i = i + 1;
        }
        None
    }

    pub fn contains_key(&self, name: &str) -> (r: bool)
        ensures
            r == self.lookup(name@) is Some,
    {
        let key = name.to_string();
        self.position(&key).is_some()
    }

    pub fn get(&self, name: &str) -> (r: Option<&DefinedFn>)
        ensures
            match self.lookup(name@) {
                Some(m) => r matches Some(f) && fn_model(*f) == m,
                None => r is None,
            },
    {
        let key = name.to_string();
        match self.position(&key) {
            Some(i) => Some(&self.entries[i].1),
            None => None,
        }
    }

    pub fn duplicate(&self) -> (r: FnTable)
        ensures
            r.model() == self.model(),
            self.names_unique() ==> r.names_unique(),
    {
        let mut entries: Vec<(String, DefinedFn)> = Vec::new();
        let mut i: usize = 0;
        while i < self.entries.len()
            invariant
                i <= self.entries@.len(),
                entries@.len() == i,
                forall|j: int| 0 <= j < i ==> entries@[j].0@ == self.entries@[j].0@ && fn_model(entries@[j].1)
                    == fn_model(self.entries@[j].1),
            decreases self.entries@.len() - i,
        {
            entries.push((self.entries[i].0.clone(), self.entries[i].1.duplicate()));
            i = i + 1;
        }
        let r = FnTable { entries };
        proof {
            assert forall|n: Seq<char>| r.lookup(n) == self.lookup(n) by {
                lemma_find_name_same_names(r.entries@, self.entries@, n);
                lemma_find_name(r.entries@, n);
            }
            assert(r.model() =~= self.model());
        }
        r
    }

    /// Binds `name` to `f`, replacing an earlier function of that name.
    pub fn insert(&mut self, name: String, f: DefinedFn)
        ensures
            final(self).lookup(name@) == Some(fn_model(f)),
            forall|n: Seq<char>| n != name@ ==> final(self).lookup(n) == old(self).lookup(n),
            final(self).model() == old(self).model().insert(name@, fn_model(f)),
            old(self).names_unique() ==> final(self).names_unique(),
    {
        let ghost n0 = name@;
        let ghost e0 = (name, f);
        match self.position(&name) {
            Some(i) => {
                proof {
                    lemma_find_name(self.entries@, n0);
                }
                self.entries.set(i, (name, f));
                proof {
                    lemma_find_name_same_names(self.entries@, old(self).entries@, n0);
                    assert(self.entries@[i as int] == e0);
                    assert forall|n: Seq<char>| n != n0 implies self.lookup(n) == old(self).lookup(n) by {
                        lemma_find_name_same_names(self.entries@, old(self).entries@, n);
                        lemma_find_name(self.entries@, n);
                    }
                }
            },
            None => {
                self.entries.push((name, f));
                proof {
                    assert(self.entries@ == old(self).entries@.push(e0));
                    lemma_find_name(self.entries@, n0);
                    assert(self.entries@[old(self).entries@.len() as int] == e0);
                    lemma_find_name(old(self).entries@, n0);
                    assert forall|n: Seq<char>| n != n0 implies self.lookup(n) == old(self).lookup(n) by {
                        lemma_find_name_push(old(self).entries@, e0, n);
                        lemma_find_name(old(self).entries@, n);
                        
                    }
                }
            },
        }
        proof {
            assert(self.model() =~= old(self).model().insert(n0, fn_model(e0.1)));
        }
    }
}

proof fn lemma_find_name_same_names<V>(a: Seq<(String, V)>, b: Seq<(String, V)>, n: Seq<char>)
    requires
        a.len() == b.len(),
        forall|j: int| 0 <= j < a.len() ==> a[j].0@ == b[j].0@,
    ensures
        find_name(a, n) == find_name(b, n),
    decreases a.len(),
{
    if a.len() > 0 {
        lemma_find_name_same_names(a.drop_first(), b.drop_first(), n);
    }
}

proof fn lemma_find_name_push<V>(a: Seq<(String, V)>, x: (String, V), n: Seq<char>)
    requires
        x.0@ != n,
    ensures
        find_name(a.push(x), n) == find_name(a, n),
    decreases a.len(),
{
    if a.len() > 0 {
        assert(a.push(x).drop_first() =~= a.drop_first().push(x));
        lemma_find_name_push(a.drop_first(), x, n);
    } else {
        assert(a.push(x).drop_first() =~= a);
    }
}

/// A compiled program: the constant pool and the user functions by name.
#[derive(Debug, Clone)]
pub struct Program {
    pub pool: Pool,
    pub fns: FnTable,
}

} // verus!
