use jlrs::error::{exception, other, other_err, AllocError, Dimensions, JlrsError};
use jlrs::text::{bracketed_string, decimal_string};

#[test]
fn decimal_of_numbers() {
    assert_eq!(decimal_string(0), "0");
    assert_eq!(decimal_string(7), "7");
    assert_eq!(decimal_string(10), "10");
    assert_eq!(decimal_string(5000000), "5000000");
    assert_eq!(decimal_string(usize::MAX), usize::MAX.to_string());
}

#[test]
fn bracketed_lists() {
    assert_eq!(bracketed_string(&vec![]), "[]");
    assert_eq!(bracketed_string(&vec![4]), "[4]");
    assert_eq!(bracketed_string(&vec![2, 30, 400]), "[2, 30, 400]");
}

#[test]
fn exception_is_an_error() {
    let r: Result<u8, Box<JlrsError>> = exception("BoundsError".to_string());
    assert_eq!(*r.unwrap_err(), JlrsError::Exception("BoundsError".to_string()));
}

#[test]
fn other_wraps_the_description() {
    let r = other("disk full".to_string());
    assert_eq!(*r.unwrap_err(), JlrsError::Other("disk full".to_string()));
    assert_eq!(other_err("x".to_string()), JlrsError::Other("x".to_string()));
}

#[test]
fn messages_of_plain_variants() {
    assert_eq!(JlrsError::AlreadyInitialized.message(), "The runtime was already initialized");
    assert_eq!(JlrsError::NotAnSVec.message(), "This is not a simple vector");
    assert_eq!(
        JlrsError::NullFrame.message(),
        "NullFrames don't support allocations or nesting another NullFrame"
    );
    assert_eq!(JlrsError::NotSubtype.message(), "Value type is not a subtype of the field type");
}

#[test]
fn messages_with_names() {
    assert_eq!(
        JlrsError::Exception("DomainError".to_string()).message(),
        "An exception was thrown: DomainError"
    );
    assert_eq!(JlrsError::NotAModule("Foo".to_string()).message(), "Foo is not a module");
    assert_eq!(
        JlrsError::FunctionNotFound("complexfunc".to_string()).message(),
        "The function complexfunc could not be found"
    );
    assert_eq!(
        JlrsError::IncludeError("MyModule.jl".to_string(), "LoadError".to_string()).message(),
        "The file MyModule.jl could not be included successfully. Exception type: LoadError"
    );
    assert_eq!(
        JlrsError::IncludeNotFound("x.jl".to_string()).message(),
        "The file x.jl could not be found"
    );
}

#[test]
fn messages_with_numbers() {
    assert_eq!(
        JlrsError::OutOfBounds(12, 10).message(),
        "Cannot access value at index 12 because the number of values is 10"
    );
    assert_eq!(JlrsError::NotAPointerField(3).message(), "The field at index 3 is stored inline");
    let idx = Dimensions { sizes: vec![3, 1] };
    let shape = Dimensions { sizes: vec![2, 2] };
    assert_eq!(
        JlrsError::InvalidIndex(idx, shape).message(),
        "Index [3, 1] is not valid for array with shape [2, 2]"
    );
}

#[test]
fn allocation_messages() {
    assert_eq!(
        AllocError::FrameOverflow(1, 16).message(),
        "The frame cannot handle more data. Tried to allocate: 1; capacity: 16"
    );
    assert_eq!(
        AllocError::StackOverflow(32, 16).message(),
        "The stack cannot handle more data. Tried to allocate: 32; capacity: 16"
    );
    let e: JlrsError = AllocError::StackOverflow(5, 4).into();
    assert_eq!(e, JlrsError::AllocError(AllocError::StackOverflow(5, 4)));
    assert_eq!(
        e.message(),
        "The stack cannot handle more data. Tried to allocate: 5; capacity: 4"
    );
}
