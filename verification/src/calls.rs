//! What a registration asks of the engine, and what it hears back.
use vstd::prelude::*;

use crate::classes::Constructor;
use crate::sys::{
    Error, ErrorView, ExportRegisterCallback, ModuleExportsCallback, NapiThreadsafeFunction,
    NapiValue, PropertyDescriptor,
};

verus! {

/// One request to the driver. Unless said otherwise it is one call of the C interface, made on
/// the environment that is being set up, and answered by `Reply::Status`.
#[derive(Debug, PartialEq, Eq)]
pub enum Call {
    /// Let some time pass while the first module finishes; answered by `Reply::Ready`.
    AwaitFirstModule,
    /// Make sure that each registered class can be defined; answered by `Reply::Ready`.
    CheckClasses,
    /// `napi_get_named_property`
    GetNamedProperty { object: NapiValue, name: &'static str },
    /// `napi_create_object`
    CreateObject,
    /// `napi_set_named_property`
    SetNamedProperty { object: NapiValue, name: &'static str, value: NapiValue },
    /// Calls the function that creates an export; answered by `Reply::Returned`.
    CallExport { callback: ExportRegisterCallback },
    /// `napi_define_class`
    DefineClass {
        name: &'static str,
        length: usize,
        constructor: Constructor,
        properties: Vec<PropertyDescriptor>,
    },
    /// `napi_create_reference`
    CreateReference { value: NapiValue, initial_refcount: u32 },
    /// Calls a function that fills in `exports` by itself; answered by `Reply::Returned`.
    CallModuleExports { fill: ModuleExportsCallback, exports: NapiValue },
    /// Start the asynchronous runtime of the process, unless it runs; answered by `Reply::Ready`.
    EnsureRuntime,
    /// Count one more environment that uses the runtime; answered by `Reply::Ready`.
    CountRuntimeUser,
    /// `napi_add_env_cleanup_hook`, with the function that gives the runtime up
    AddRuntimeCleanupHook,
    /// `napi_create_function`, with a callback that does nothing
    CreateFunction { name: &'static str, length: usize },
    /// `napi_create_string_utf8`
    CreateString { text: &'static str, length: usize },
    /// `napi_create_threadsafe_function`, with the two callbacks of the collector
    CreateThreadsafeFunction {
        function: NapiValue,
        resource_name: NapiValue,
        max_queue_size: usize,
        initial_thread_count: usize,
    },
    /// `napi_unref_threadsafe_function`
    UnrefThreadsafeFunction { threadsafe_function: NapiThreadsafeFunction },
    /// The registration is over: hand `exports` back to the engine. There is no answer.
    Return { exports: NapiValue },
}

/// The model of a `Call`.
#[verifier::ext_equal]
pub enum CallView {
    AwaitFirstModule,
    CheckClasses,
    GetNamedProperty { object: NapiValue, name: Seq<char> },
    CreateObject,
    SetNamedProperty { object: NapiValue, name: Seq<char>, value: NapiValue },
    CallExport { callback: ExportRegisterCallback },
    DefineClass {
        name: Seq<char>,
        length: int,
        constructor: Constructor,
        properties: Seq<PropertyDescriptor>,
    },
    CreateReference { value: NapiValue, initial_refcount: int },
    CallModuleExports { fill: ModuleExportsCallback, exports: NapiValue },
    EnsureRuntime,
    CountRuntimeUser,
    AddRuntimeCleanupHook,
    CreateFunction { name: Seq<char>, length: int },
    CreateString { text: Seq<char>, length: int },
    CreateThreadsafeFunction {
        function: NapiValue,
        resource_name: NapiValue,
        max_queue_size: int,
        initial_thread_count: int,
    },
    UnrefThreadsafeFunction { threadsafe_function: NapiThreadsafeFunction },
    Return { exports: NapiValue },
}

impl View for Call {
    type V = CallView;

    open spec fn view(&self) -> CallView {
        match *self {
            Call::AwaitFirstModule => CallView::AwaitFirstModule,
            Call::CheckClasses => CallView::CheckClasses,
            Call::GetNamedProperty { object, name } => CallView::GetNamedProperty {
                object,
                name: name@,
            },
            Call::CreateObject => CallView::CreateObject,
            Call::SetNamedProperty { object, name, value } => CallView::SetNamedProperty {
                object,
                name: name@,
                value,
            },
            Call::CallExport { callback } => CallView::CallExport { callback },
            Call::DefineClass { name, length, constructor, properties } => CallView::DefineClass {
                name: name@,
                length: length as int,
                constructor,
                properties: properties@,
            },
            Call::CreateReference { value, initial_refcount } => CallView::CreateReference {
                value,
                initial_refcount: initial_refcount as int,
            },
            Call::CallModuleExports { fill, exports } => CallView::CallModuleExports {
                fill,
                exports,
            },
            Call::EnsureRuntime => CallView::EnsureRuntime,
            Call::CountRuntimeUser => CallView::CountRuntimeUser,
            Call::AddRuntimeCleanupHook => CallView::AddRuntimeCleanupHook,
            Call::CreateFunction { name, length } => CallView::CreateFunction {
                name: name@,
                length: length as int,
            },
            Call::CreateString { text, length } => CallView::CreateString {
                text: text@,
                length: length as int,
            },
            Call::CreateThreadsafeFunction {
                function,
                resource_name,
                max_queue_size,
                initial_thread_count,
            } => CallView::CreateThreadsafeFunction {
                function,
                resource_name,
                max_queue_size: max_queue_size as int,
                initial_thread_count: initial_thread_count as int,
            },
            Call::UnrefThreadsafeFunction { threadsafe_function } => CallView::UnrefThreadsafeFunction {
                threadsafe_function,
            },
            Call::Return { exports } => CallView::Return { exports },
        }
    }
}

/// The answer to one request.
#[derive(Debug, PartialEq, Eq)]
pub enum Reply {
    /// The status of a call of the C interface, and what it wrote as its result (`NULL` where it
    /// wrote nothing).
    Status { status: i32, value: usize },
    /// What a registered function returned (`NULL` where it returns no value).
    Returned { result: Result<NapiValue, Error> },
    /// There is nothing to report.
    Ready,
}

/// The model of a `Reply`.
pub enum ReplyView {
    Status { status: i32, value: usize },
    Returned { result: Result<NapiValue, ErrorView> },
    Ready,
}

impl View for Reply {
    type V = ReplyView;

    open spec fn view(&self) -> ReplyView {
        match *self {
            Reply::Status { status, value } => ReplyView::Status { status, value },
            Reply::Returned { result } => ReplyView::Returned {
                result: match result {
                    Ok(value) => Ok(value),
                    Err(error) => Err(error@),
                },
            },
            Reply::Ready => ReplyView::Ready,
        }
    }
}

/// Whether a reply is of the kind that the request calls for.
pub open spec fn answers(reply: ReplyView, call: CallView) -> bool {
    match call {
        CallView::AwaitFirstModule
        | CallView::CheckClasses
        | CallView::EnsureRuntime
        | CallView::CountRuntimeUser => reply is Ready,
        CallView::CallExport { .. } | CallView::CallModuleExports { .. } => reply is Returned,
        CallView::Return { .. } => false,
        _ => reply is Status,
    }
}

/// What is answered how: by nothing but its time the wait for the first module, the check of the
/// classes and the two requests that no call of the C interface stands for; by what it returned a
/// registered function; not at all the end; and by a status every other request, whatever the
/// status and the value.
pub proof fn law_every_request_has_its_answer(call: CallView, reply: ReplyView)
    ensures
        answers(reply, call) <==> match call {
            CallView::AwaitFirstModule
            | CallView::CheckClasses
            | CallView::EnsureRuntime
            | CallView::CountRuntimeUser => reply is Ready,
            CallView::CallExport { .. }
            | CallView::CallModuleExports { .. } => reply is Returned,
            CallView::Return { .. } => false,
            CallView::GetNamedProperty { .. }
            | CallView::CreateObject
            | CallView::SetNamedProperty { .. }
            | CallView::DefineClass { .. }
            | CallView::CreateReference { .. }
            | CallView::AddRuntimeCleanupHook
            | CallView::CreateFunction { .. }
            | CallView::CreateString { .. }
            | CallView::CreateThreadsafeFunction { .. }
            | CallView::UnrefThreadsafeFunction { .. } => reply is Status,
        },
{
}

/// The model of a request is the request with all that it holds, each text whole.
pub proof fn law_a_request_is_what_it_holds(call: Call)
    ensures
        match call {
            Call::AwaitFirstModule => call@ is AwaitFirstModule,
            Call::CheckClasses => call@ is CheckClasses,
            Call::GetNamedProperty { object, name } => {
                &&& call@ is GetNamedProperty
                &&& call@->GetNamedProperty_object == object
                &&& call@->GetNamedProperty_name == name@
            },
            Call::CreateObject => call@ is CreateObject,
            Call::SetNamedProperty { object, name, value } => {
                &&& call@ is SetNamedProperty
                &&& call@->SetNamedProperty_object == object
                &&& call@->SetNamedProperty_name == name@
                &&& call@->SetNamedProperty_value == value
            },
            Call::CallExport { callback } => {
                &&& call@ is CallExport
                &&& call@->callback == callback
            },
            Call::DefineClass { name, length, constructor, properties } => {
                &&& call@ is DefineClass
                &&& call@->DefineClass_name == name@
                &&& call@->DefineClass_length == length
                &&& call@->constructor == constructor
                &&& call@->properties == properties@
            },
            Call::CreateReference { value, initial_refcount } => {
                &&& call@ is CreateReference
                &&& call@->CreateReference_value == value
                &&& call@->initial_refcount == initial_refcount
            },
            Call::CallModuleExports { fill, exports } => {
                &&& call@ is CallModuleExports
                &&& call@->fill == fill
                &&& call@->CallModuleExports_exports == exports
            },
            Call::EnsureRuntime => call@ is EnsureRuntime,
            Call::CountRuntimeUser => call@ is CountRuntimeUser,
            Call::AddRuntimeCleanupHook => call@ is AddRuntimeCleanupHook,
            Call::CreateFunction { name, length } => {
                &&& call@ is CreateFunction
                &&& call@->CreateFunction_name == name@
                &&& call@->CreateFunction_length == length
            },
            Call::CreateString { text, length } => {
                &&& call@ is CreateString
                &&& call@->text == text@
                &&& call@->CreateString_length == length
            },
            Call::CreateThreadsafeFunction {
                function,
                resource_name,
                max_queue_size,
                initial_thread_count,
            } => {
                &&& call@ is CreateThreadsafeFunction
                &&& call@->function == function
                &&& call@->resource_name == resource_name
                &&& call@->max_queue_size == max_queue_size
                &&& call@->initial_thread_count == initial_thread_count
            },
            Call::UnrefThreadsafeFunction { threadsafe_function } => {
                &&& call@ is UnrefThreadsafeFunction
                &&& call@->threadsafe_function == threadsafe_function
            },
            Call::Return { exports } => {
                &&& call@ is Return
                &&& call@->Return_exports == exports
            },
        },
{
}

/// The model of an answer is the answer with all that it holds.
pub proof fn law_an_answer_is_what_it_holds(reply: Reply)
    ensures
        match reply {
            Reply::Status { status, value } => reply@ == (ReplyView::Status { status, value }),
            Reply::Returned { result: Ok(value) } => reply@ == (ReplyView::Returned {
                result: Ok(value),
            }),
            Reply::Returned { result: Err(error) } => reply@ == (ReplyView::Returned {
                result: Err(ErrorView { status: error.status, reason: error.reason@ }),
            }),
            Reply::Ready => reply@ is Ready,
        },
{
}

} // verus!
