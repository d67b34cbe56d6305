//! Checking the type tag of an interpreter value before it is viewed as a specific kind.
use vstd::prelude::*;
use crate::error::{JlrsError, JlrsResult};

verus! {

/// The type tag read from an interpreter value.
#[derive(Copy, Clone, Debug, PartialEq, Eq, Structural)]
pub enum TypeTag {
    SimpleVector,
    Symbol,
    TypeName,
    TypeVar,
    Module,
    /// Any other type.
    Other,
}

/// The error for a value that was to be viewed as `target` and is not one.
pub open spec fn mismatch(target: TypeTag) -> JlrsError {
    match target {
        TypeTag::SimpleVector => JlrsError::NotAnSVec,
        TypeTag::Symbol => JlrsError::NotASymbol,
        TypeTag::TypeName => JlrsError::NotATypeName,
        TypeTag::TypeVar => JlrsError::NotATypeVar,
        _ => JlrsError::WrongType,
    }
}

/// Accepts a value whose tag is `found` as a `target` only when the tags agree; otherwise
/// fails with the error of `target`, before any reinterpretation.
pub fn check_cast(found: TypeTag, target: TypeTag) -> (r: JlrsResult<()>)
    ensures
        found == target ==> r == Ok::<(), Box<JlrsError>>(()),
        found != target ==> (r matches Err(e) && *e == mismatch(target)),
{
    if found == target {
        return Ok(());
    }
    let e = match target {
        TypeTag::SimpleVector => JlrsError::NotAnSVec,
        TypeTag::Symbol => JlrsError::NotASymbol,
        TypeTag::TypeName => JlrsError::NotATypeName,
        TypeTag::TypeVar => JlrsError::NotATypeVar,
        _ => JlrsError::WrongType,
    };
    Err(Box::new(e))
}

} // verus!
