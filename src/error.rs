//! Everything related to errors.
use vstd::prelude::*;
use vstd::string::*;
use crate::text::{bracketed, bracketed_string, decimal, decimal_string};

verus! {

/// Alias that is used for most `Result`s in this crate.
pub type JlrsResult<T> = Result<T, Box<JlrsError>>;

/// The shape of an array: the number of elements along each of its dimensions.
#[derive(Clone, Debug, PartialEq, Eq)]
pub struct Dimensions {
    pub sizes: Vec<usize>,
}

/// All different errors.
#[derive(Clone, Debug, PartialEq, Eq)]
pub enum JlrsError {
    Other(String),
    Exception(String),
    AlreadyInitialized,
    ConstAlreadyExists(String),
    NotAnArray,
    Nothing,
    NotADataType,
    NotAMethod,
    NotAMethodInstance,
    NotACodeInstance,
    NotAWeakRef,
    NotATypeMapEntry,
    NotATypeMapLevel,
    NotAnExpr,
    NotATask,
    NotASymbol,
    NotAString,
    NotUnicode,
    NotAnSVec,
    NotAnSSAValue,
    NotATypeName,
    NotATypeVar,
    NotAUnion,
    NotAUnionAll,
    FunctionNotFound(String),
    IncludeNotFound(String),
    IncludeError(String, String),
    NoSuchField(String),
    InvalidArrayType,
    InvalidCharacter,
    NotAModule(String),
    NotAMethTable,
    AllocError(AllocError),
    WrongType,
    NotInline,
    NullFrame,
    Inline,
    NotAPointerField(usize),
    ZeroDimension,
    OutOfBounds(usize, usize),
    InvalidIndex(Dimensions, Dimensions),
    Immutable,
    NotSubtype,
}

/// Frames and the data they protect have a memory cost. When the memory set aside for frames,
/// or a frame itself, is exhausted, this error is returned. The first field is the number of
/// slots that was requested, the second the number that was available.
#[derive(Copy, Clone, Debug, PartialEq, Eq, Structural)]
pub enum AllocError {
    StackOverflow(usize, usize),
    FrameOverflow(usize, usize),
}

impl AllocError {
    pub open spec fn message_spec(&self) -> Seq<char> {
        match *self {
            AllocError::StackOverflow(n, cap) => "The stack cannot handle more data. Tried to allocate: "@
                + decimal(n as nat) + "; capacity: "@ + decimal(cap as nat),
            AllocError::FrameOverflow(n, cap) => "The frame cannot handle more data. Tried to allocate: "@
                + decimal(n as nat) + "; capacity: "@ + decimal(cap as nat),
        }
    }

    /// The human-readable description of this error.
    pub fn message(&self) -> (r: String)
        ensures
            r@ == self.message_spec(),
    {
        let (mut s, n, cap) = match self {
            AllocError::StackOverflow(n, cap) => (
                String::from_str("The stack cannot handle more data. Tried to allocate: "),
                *n,
                *cap,
            ),
            AllocError::FrameOverflow(n, cap) => (
                String::from_str("The frame cannot handle more data. Tried to allocate: "),
                *n,
                *cap,
            ),
        };
        let n_text = decimal_string(n);
        s.append(n_text.as_str());
        s.append("; capacity: ");
        let cap_text = decimal_string(cap);
        s.append(cap_text.as_str());
        s
    }
}

impl JlrsError {
    pub open spec fn message_spec(&self) -> Seq<char> {
        match *self {
            JlrsError::Other(a) => "An error occurred: "@ + a@,
            JlrsError::Exception(a) => "An exception was thrown: "@ + a@,
            JlrsError::AlreadyInitialized => "The runtime was already initialized"@,
            JlrsError::ConstAlreadyExists(a) => "The constant "@ + a@ + " already exists"@,
            JlrsError::NotAnArray => "This is not an array"@,
            JlrsError::Nothing => "This value is Nothing"@,
            JlrsError::NotADataType => "This is not a datatype"@,
            JlrsError::NotAMethod => "This is not a method"@,
            JlrsError::NotAMethodInstance => "This is not a method instance"@,
            JlrsError::NotACodeInstance => "This is not a code instance"@,
            JlrsError::NotAWeakRef => "This is not a weak ref"@,
            JlrsError::NotATypeMapEntry => "This is not a typemap entry"@,
            JlrsError::NotATypeMapLevel => "This is not a typemap level"@,
            JlrsError::NotAnExpr => "This is not an expr"@,
            JlrsError::NotATask => "This is not a task"@,
            JlrsError::NotASymbol => "This is not a symbol"@,
            JlrsError::NotAString => "This is not a string"@,
            JlrsError::NotUnicode => "This string contains invalid characters"@,
            JlrsError::NotAnSVec => "This is not a simple vector"@,
            JlrsError::NotAnSSAValue => "This is not an SSA value"@,
            JlrsError::NotATypeName => "This is not a typename"@,
            JlrsError::NotATypeVar => "This is not a type var"@,
            JlrsError::NotAUnion => "This is not a union"@,
            JlrsError::NotAUnionAll => "This is not a UnionAll"@,
            JlrsError::FunctionNotFound(a) => "The function "@ + a@ + " could not be found"@,
            JlrsError::IncludeNotFound(a) => "The file "@ + a@ + " could not be found"@,
            JlrsError::IncludeError(a, b) => "The file "@ + a@ + " could not be included successfully. Exception type: "@ + b@,
            JlrsError::NoSuchField(a) => "The field "@ + a@ + " could not be found"@,
            JlrsError::InvalidArrayType => "Invalid array type"@,
            JlrsError::InvalidCharacter => "Invalid character"@,
            JlrsError::NotAModule(a) => a@ + " is not a module"@,
            JlrsError::NotAMethTable => "This is not a method table"@,
            JlrsError::AllocError(e) => e.message_spec(),
            JlrsError::WrongType => "Requested type does not match the found type"@,
            JlrsError::NotInline => "The data of this array is not stored inline"@,
            JlrsError::NullFrame => "NullFrames don't support allocations or nesting another NullFrame"@,
            JlrsError::Inline => "The data of this array is stored inline"@,
            JlrsError::NotAPointerField(a) => "The field at index "@ + decimal(a as nat) + " is stored inline"@,
            JlrsError::ZeroDimension => "Cannot handle arrays with zero dimensions"@,
            JlrsError::OutOfBounds(a, b) => "Cannot access value at index "@ + decimal(a as nat) + " because the number of values is "@ + decimal(b as nat),
            JlrsError::InvalidIndex(a, b) => "Index "@ + bracketed(a.sizes@) + " is not valid for array with shape "@ + bracketed(b.sizes@),
            JlrsError::Immutable => "This value is immutable"@,
            JlrsError::NotSubtype => "Value type is not a subtype of the field type"@,
        }
    }

    /// The human-readable description of this error.
    pub fn message(&self) -> (r: String)
        ensures
            r@ == self.message_spec(),
    {
        match self {
            JlrsError::Other(a) => {
                let mut s = String::from_str("An error occurred: ");
                s.append(a.as_str());
                s
            },
            JlrsError::Exception(a) => {
                let mut s = String::from_str("An exception was thrown: ");
                s.append(a.as_str());
                s
            },
            JlrsError::AlreadyInitialized => String::from_str("The runtime was already initialized"),
            JlrsError::ConstAlreadyExists(a) => {
                let mut s = String::from_str("The constant ");
                s.append(a.as_str());
                s.append(" already exists");
                s
            },
            JlrsError::NotAnArray => String::from_str("This is not an array"),
            JlrsError::Nothing => String::from_str("This value is Nothing"),
            JlrsError::NotADataType => String::from_str("This is not a datatype"),
            JlrsError::NotAMethod => String::from_str("This is not a method"),
            JlrsError::NotAMethodInstance => String::from_str("This is not a method instance"),
            JlrsError::NotACodeInstance => String::from_str("This is not a code instance"),
            JlrsError::NotAWeakRef => String::from_str("This is not a weak ref"),
            JlrsError::NotATypeMapEntry => String::from_str("This is not a typemap entry"),
            JlrsError::NotATypeMapLevel => String::from_str("This is not a typemap level"),
            JlrsError::NotAnExpr => String::from_str("This is not an expr"),
            JlrsError::NotATask => String::from_str("This is not a task"),
            JlrsError::NotASymbol => String::from_str("This is not a symbol"),
            JlrsError::NotAString => String::from_str("This is not a string"),
            JlrsError::NotUnicode => String::from_str("This string contains invalid characters"),
            JlrsError::NotAnSVec => String::from_str("This is not a simple vector"),
            JlrsError::NotAnSSAValue => String::from_str("This is not an SSA value"),
            JlrsError::NotATypeName => String::from_str("This is not a typename"),
            JlrsError::NotATypeVar => String::from_str("This is not a type var"),
            JlrsError::NotAUnion => String::from_str("This is not a union"),
            JlrsError::NotAUnionAll => String::from_str("This is not a UnionAll"),
            JlrsError::FunctionNotFound(a) => {
                let mut s = String::from_str("The function ");
                s.append(a.as_str());
                s.append(" could not be found");
                s
            },
            JlrsError::IncludeNotFound(a) => {
                let mut s = String::from_str("The file ");
                s.append(a.as_str());
                s.append(" could not be found");
                s
            },
            JlrsError::IncludeError(a, b) => {
                let mut s = String::from_str("The file ");
                s.append(a.as_str());
                s.append(" could not be included successfully. Exception type: ");
                s.append(b.as_str());
                s
            },
            JlrsError::NoSuchField(a) => {
                let mut s = String::from_str("The field ");
                s.append(a.as_str());
                s.append(" could not be found");
                s
            },
            JlrsError::InvalidArrayType => String::from_str("Invalid array type"),
            JlrsError::InvalidCharacter => String::from_str("Invalid character"),
            JlrsError::NotAModule(a) => {
                let mut s = String::from_str(a.as_str());
                s.append(" is not a module");
                s
            },
            JlrsError::NotAMethTable => String::from_str("This is not a method table"),
            JlrsError::AllocError(e) => e.message(),
            JlrsError::WrongType => String::from_str("Requested type does not match the found type"),
            JlrsError::NotInline => String::from_str("The data of this array is not stored inline"),
            JlrsError::NullFrame => String::from_str("NullFrames don't support allocations or nesting another NullFrame"),
            JlrsError::Inline => String::from_str("The data of this array is stored inline"),
            JlrsError::NotAPointerField(a) => {
                let mut s = String::from_str("The field at index ");
                let a_text = decimal_string(*a);
                s.append(a_text.as_str());
                s.append(" is stored inline");
                s
            },
            JlrsError::ZeroDimension => String::from_str("Cannot handle arrays with zero dimensions"),
            JlrsError::OutOfBounds(a, b) => {
                let mut s = String::from_str("Cannot access value at index ");
                let a_text = decimal_string(*a);
                s.append(a_text.as_str());
                s.append(" because the number of values is ");
                let b_text = decimal_string(*b);
                s.append(b_text.as_str());
                s
            },
            JlrsError::InvalidIndex(a, b) => {
                let mut s = String::from_str("Index ");
                let a_text = bracketed_string(&a.sizes);
                s.append(a_text.as_str());
                s.append(" is not valid for array with shape ");
                let b_text = bracketed_string(&b.sizes);
                s.append(b_text.as_str());
                s
            },
            JlrsError::Immutable => String::from_str("This value is immutable"),
            JlrsError::NotSubtype => String::from_str("Value type is not a subtype of the field type"),
        }
    }

    /// Wraps the description of a foreign error.
    pub fn other(reason: String) -> (r: Self)
        ensures
            r == JlrsError::Other(reason),
    {
        JlrsError::Other(reason)
    }
}

impl From<AllocError> for JlrsError {
    fn from(e: AllocError) -> (r: Self)
        ensures
            r == JlrsError::AllocError(e),
    {
        JlrsError::AllocError(e)
    }
}

impl vstd::std_specs::convert::FromSpecImpl<AllocError> for JlrsError {
    open spec fn obeys_from_spec() -> bool {
        true
    }

    open spec fn from_spec(e: AllocError) -> Self {
        JlrsError::AllocError(e)
    }
}

/// Fails with an exception that carries the given description.
pub fn exception<T>(exc: String) -> (r: JlrsResult<T>)
    ensures
        r matches Err(e) && *e == JlrsError::Exception(exc),
{
    Err(Box::new(JlrsError::Exception(exc)))
}

/// Fails with a foreign error, given by its description.
pub fn other(reason: String) -> (r: JlrsResult<()>)
    ensures
        r matches Err(e) && *e == JlrsError::Other(reason),
{
    Err(Box::new(JlrsError::other(reason)))
}

/// The error that wraps a foreign error, given by its description.
pub fn other_err(reason: String) -> (r: JlrsError)
    ensures
        r == JlrsError::Other(reason),
{
    JlrsError::other(reason)
}

} // verus!
