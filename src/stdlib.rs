use vstd::prelude::*;
use crate::object::Type;

verus! {

/// The signature of a native function.
#[derive(Debug, Clone)]
pub struct FnPrototype {
    pub arity: u8,
    pub argtypes: Vec<Type>,
    pub return_type: Type,
}

/// A native function as the machine sees it: its prototype. The host supplies its behaviour by name.
#[derive(Debug, Clone)]
pub struct NativeFn {
    pub prototype: FnPrototype,
}

/// The registry of native functions by name: `write`, of one argument, returning nothing.
pub fn list_native_fns() -> (r: Vec<(String, NativeFn)>)
    ensures
        r@.len() == 1,
        r@[0].0@ == "write"@,
        r@[0].1.prototype.arity == 1,
        r@[0].1.prototype.argtypes@.len() == 0,
        r@[0].1.prototype.return_type == Type::Void,
{
    let write_fn_prototype = FnPrototype { arity: 1, argtypes: Vec::new(), return_type: Type::Void };
    let write_fn = NativeFn { prototype: write_fn_prototype };
    let mut fns: Vec<(String, NativeFn)> = Vec::new();
    fns.push(("write".to_string(), write_fn));
    fns
}

} // verus!
