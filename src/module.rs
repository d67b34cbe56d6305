//! Resolving names in the interpreter's modules.
//!
//! Looking a name up happens on the loop thread, through the interpreter; what it found is
//! handed here as a `Binding`, and the rules below decide what the caller gets.
use vstd::prelude::*;
use crate::error::{JlrsError, JlrsResult};

verus! {

/// What a name is bound to in a module. Values are given by the interpreter's handle for them.
#[derive(Copy, Clone, Debug, PartialEq, Eq, Structural)]
pub enum Binding {
    /// The name is not defined in the module.
    Unbound,
    /// The name is bound to a module.
    Module(usize),
    /// The name is bound to a value that is not a module.
    Value(usize),
}

/// The submodule `name`, which a lookup found bound as `found`. Anything but a module is an
/// error that names it.
pub fn submodule(name: String, found: Binding) -> (r: JlrsResult<usize>)
    ensures
        found matches Binding::Module(h) ==> r == Ok::<usize, Box<JlrsError>>(h),
        !(found is Module) ==> (r matches Err(e) && *e == JlrsError::NotAModule(name)),
{
    match found {
        Binding::Module(h) => Ok(h),
        _ => Err(Box::new(JlrsError::NotAModule(name))),
    }
}

/// The global `name`, which a lookup found bound as `found`. Any bound value is accepted,
/// modules included; an unbound name is an error that names it.
pub fn global(name: String, found: Binding) -> (r: JlrsResult<usize>)
    ensures
        found matches Binding::Module(h) ==> r == Ok::<usize, Box<JlrsError>>(h),
        found matches Binding::Value(h) ==> r == Ok::<usize, Box<JlrsError>>(h),
        found is Unbound ==> (r matches Err(e) && *e == JlrsError::FunctionNotFound(name)),
{
    match found {
        Binding::Module(h) => Ok(h),
        Binding::Value(h) => Ok(h),
        Binding::Unbound => Err(Box::new(JlrsError::FunctionNotFound(name))),
    }
}

/// The function `name`: every global resolves as a function, and the interpreter raises an
/// exception when something that is not one is called. The same rules as `global` apply.
pub fn function(name: String, found: Binding) -> (r: JlrsResult<usize>)
    ensures
        found matches Binding::Module(h) ==> r == Ok::<usize, Box<JlrsError>>(h),
        found matches Binding::Value(h) ==> r == Ok::<usize, Box<JlrsError>>(h),
        found is Unbound ==> (r matches Err(e) && *e == JlrsError::FunctionNotFound(name)),
{
    global(name, found)
}

} // verus!
