//! Plain-value forms of what the Node-API boundary hands over.
//!
//! Every pointer of the C interface is held as its address; the null pointer is `NULL`.
use vstd::prelude::*;

verus! {

/// Address of a `napi_env`.
pub type NapiEnv = usize;

/// Address of a `napi_value`.
pub type NapiValue = usize;

/// Address of a `napi_ref`.
pub type NapiRef = usize;

/// Address of a `napi_threadsafe_function`.
pub type NapiThreadsafeFunction = usize;

/// Address of a C callback that is known to be there.
pub type Callback = usize;

/// Address of a C callback, or `None` where the C interface would hold null.
pub type NapiCallback = Option<usize>;

/// Address of the function that creates the value of one module export.
pub type ExportRegisterCallback = usize;

/// Address of a function that fills in the `exports` object by itself.
pub type ModuleExportsCallback = usize;

/// Names one thread of the process; no two threads ever share a number.
pub type ThreadKey = u64;

/// The null pointer.
pub const NULL: usize = 0;

/// `napi_ok`
pub const NAPI_OK: i32 = 0;

/// `napi_invalid_arg`
pub const NAPI_INVALID_ARG: i32 = 1;

/// `napi_closing`
pub const NAPI_CLOSING: i32 = 16;

/// `napi_tsfn_blocking`
pub const NAPI_TSFN_BLOCKING: i32 = 1;

/// `napi_function`, the type code of a function value
pub const NAPI_FUNCTION: i32 = 7;

/// A failed call: its status code and what to tell the script.
#[derive(Debug, PartialEq, Eq)]
pub struct Error {
    pub status: i32,
    pub reason: String,
}

/// The model of an `Error`.
#[verifier::ext_equal]
pub struct ErrorView {
    pub status: i32,
    pub reason: Seq<char>,
}

impl View for Error {
    type V = ErrorView;

    open spec fn view(&self) -> ErrorView {
        ErrorView { status: self.status, reason: self.reason@ }
    }
}

/// The model of an optional error.
pub open spec fn error_view(error: Option<Error>) -> Option<ErrorView> {
    match error {
        Some(e) => Some(e@),
        None => None,
    }
}

/// The codes are those of the C interface.
pub proof fn law_the_codes_are_those_of_the_interface()
    ensures
        NULL == 0,
        NAPI_OK == 0,
        NAPI_INVALID_ARG == 1,
        NAPI_CLOSING == 16,
        NAPI_TSFN_BLOCKING == 1,
        NAPI_FUNCTION == 7,
{
}

/// The model of an error is its status and its whole text, and no error stays no error.
pub proof fn law_an_error_is_its_status_and_text(error: Option<Error>)
    ensures
        match error {
            Some(e) => error_view(error) == Some(
                ErrorView { status: e.status, reason: e.reason@ },
            ),
            None => error_view(error) is None,
        },
{
}

/// The fields of a `napi_property_descriptor`.
#[derive(Debug, Clone, Copy, PartialEq, Eq)]
pub struct PropertyDescriptor {
    pub utf8name: usize,
    pub name: NapiValue,
    pub method: NapiCallback,
    pub getter: NapiCallback,
    pub setter: NapiCallback,
    pub value: NapiValue,
    pub attributes: i32,
    pub data: usize,
}

/// One property of a class: its descriptor, and whether it is the constructor.
#[derive(Debug, Clone, Copy, PartialEq, Eq)]
pub struct Property {
    pub descriptor: PropertyDescriptor,
    pub is_ctor: bool,
}

impl Property {
    /// The descriptor to hand to the engine.
    pub fn raw(&self) -> (descriptor: PropertyDescriptor)
        ensures
            descriptor == self.descriptor,
    {
        self.descriptor
    }
}

} // verus!
