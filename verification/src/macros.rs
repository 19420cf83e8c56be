//! What a script with a typed interface is made of: arguments that are
//! turned into values, and results that are turned into the caller's types.

use crate::input::{encode_all, values_view};
use crate::native::{native_objects_view, NativeObject};
use crate::script::{
    descriptor_opt_view, error_dict_view, executed_view, execution_result, is_main_thread,
    ExecutionErrorView, ExecutionOutcome, Script, ScriptExecutionError,
};
use crate::value::Value;
use vstd::prelude::*;

verus! {

/// The error with which `serde_json` answers where it cannot turn a value
/// into JSON or JSON into a value.
#[verifier::external_type_specification]
#[verifier::external_body]
pub struct ExJsonError(serde_json::Error);

/// Why a call of a script function through a typed interface failed.
#[derive(Debug, PartialEq, Eq)]
pub enum ScriptFunctionRunError {
    /// The script did not run to a value.
    Execution(ScriptExecutionError),
    /// An argument could not be turned into a value.
    ArgumentSerialization { arg_name: String, message: String },
    /// The value that the function gave could not be turned into the type
    /// that the caller asked for.
    ResultDeserialization { message: String },
}

/// `to_string` on a `serde_json::Error` gives the text that the error
/// displays. Nothing is claimed of that text.
#[verifier::external_body]
fn json_error_message(error: &serde_json::Error) -> (message: String) {
    error.to_string()
}

/// The error that says that the argument called `arg_name` could not be
/// turned into a value, with the given message.
pub fn argument_serialization_error(arg_name: &str, message: String) -> (error:
    ScriptFunctionRunError)
    ensures
        error matches ScriptFunctionRunError::ArgumentSerialization {
            arg_name: name,
            message: text,
        } && name@ == arg_name@ && text == message,
{
    ScriptFunctionRunError::ArgumentSerialization { arg_name: arg_name.to_owned(), message }
}

/// Answers a failure to turn the argument called `arg_name` into a value:
/// always an error, which names the argument and carries the text that the
/// JSON error displays.
pub fn __arg_s_error<T>(arg_name: &str, error: serde_json::Error) -> (result: Result<
    T,
    ScriptFunctionRunError,
>)
    ensures
        result matches Err(ScriptFunctionRunError::ArgumentSerialization { arg_name: name, .. })
            && name@ == arg_name@,
{
    Err(argument_serialization_error(arg_name, json_error_message(&error)))
}

/// The error that says that the value which a function gave could not be
/// turned into the type that the caller asked for, with the given message.
pub fn result_deserialization_error(message: String) -> (error: ScriptFunctionRunError)
    ensures
        error == (ScriptFunctionRunError::ResultDeserialization { message }),
{
    ScriptFunctionRunError::ResultDeserialization { message }
}

/// What a call through a typed interface comes to, given what turning the
/// value into the caller's type gave: the typed result, or an error that
/// says that the value does not fit the type.
pub open spec fn is_typed_result<T>(
    deserialized: Result<T, serde_json::Error>,
    result: Result<T, ScriptFunctionRunError>,
) -> bool {
    match deserialized {
        Ok(typed) => result == Ok::<T, ScriptFunctionRunError>(typed),
        Err(_) => result matches Err(ScriptFunctionRunError::ResultDeserialization { .. }),
    }
}

/// Puts together the result of a call through a typed interface. Where
/// running the function failed, that error is the answer and `deserialize`
/// is not asked. Else `deserialize` is asked once with the value; its
/// answer is the typed result, or its error becomes an error that carries
/// the text that the JSON error displays.
pub fn finish_function_run<T, D>(executed: Result<Value, ScriptExecutionError>, deserialize: D) -> (
    result: Result<T, ScriptFunctionRunError>
)
    where D: FnOnce(Value) -> Result<T, serde_json::Error>
    requires
        executed matches Ok(value) ==> deserialize.requires((value,)),
    ensures
        executed matches Err(error) ==> result == Err::<T, ScriptFunctionRunError>(
            ScriptFunctionRunError::Execution(error),
        ),
        executed matches Ok(value) ==> exists|deserialized: Result<T, serde_json::Error>|
            {
                &&& #[trigger] deserialize.ensures((value,), deserialized)
                &&& is_typed_result(deserialized, result)
            },
{
    match executed {
        Ok(output) => {
            let ghost value = output;
            let deserialized = deserialize(output);
            assert(deserialize.ensures((value,), deserialized));
            match deserialized {
                Ok(typed) => Ok(typed),
                Err(error) => Err(result_deserialization_error(json_error_message(&error))),
            }
        },
        Err(error) => Err(ScriptFunctionRunError::Execution(error)),
    }
}

/// Runs a function of the script with the given arguments and turns the
/// value that it gives into the type that the caller asks for. On any
/// thread but the main one the answer is `MainThread` and neither `invoke`
/// nor `deserialize` is asked. Else `invoke` is asked once, as in
/// [`Script::execute_function`]; where the run gives a value `deserialize`
/// is asked once with it, and where the run fails its error is the answer.
pub fn __exec_and_deserialize<T, I, D>(
    script: &Script,
    fn_name: &str,
    arguments: Vec<Value>,
    thread_name: Option<&str>,
    invoke: I,
    deserialize: D,
) -> (result: Result<T, ScriptFunctionRunError>)
    where
        I: FnOnce(String, Vec<NativeObject>) -> ExecutionOutcome,
        D: FnOnce(Value) -> Result<T, serde_json::Error>,
    requires
        is_main_thread(thread_name) ==> forall|name: String, objects: Vec<NativeObject>|
            name@ == fn_name@ && native_objects_view(objects@) == encode_all(
                values_view(arguments@),
            ) ==> #[trigger] invoke.requires((name, objects)),
        is_main_thread(thread_name) ==> forall|value: Value| #[trigger]
            deserialize.requires((value,)),
    ensures
        !is_main_thread(thread_name) ==> (result matches Err(
            ScriptFunctionRunError::Execution(error),
        ) && error@ == ExecutionErrorView::MainThread),
        is_main_thread(thread_name) ==> exists|
            name: String,
            objects: Vec<NativeObject>,
            outcome: ExecutionOutcome,
            executed: Result<Value, ScriptExecutionError>,
        |
            {
                &&& name@ == fn_name@
                &&& native_objects_view(objects@) == encode_all(values_view(arguments@))
                &&& #[trigger] invoke.ensures((name, objects), outcome)
                &&& #[trigger] executed_view(executed) == execution_result(
                    descriptor_opt_view(outcome.result),
                    error_dict_view(outcome.error),
                )
                &&& executed matches Err(error) ==> result == Err::<T, ScriptFunctionRunError>(
                    ScriptFunctionRunError::Execution(error),
                )
                &&& executed matches Ok(value) ==> exists|
                    deserialized: Result<T, serde_json::Error>,
                |
                    {
                        &&& #[trigger] deserialize.ensures((value,), deserialized)
                        &&& is_typed_result(deserialized, result)
                    }
            },
{
    let executed = script.execute_function(fn_name, arguments, thread_name, invoke);
    let ghost seen = executed;
    let result = finish_function_run(executed, deserialize);
    proof {
        if is_main_thread(thread_name) {
            let (name, objects, outcome) = choose|
                name: String,
                objects: Vec<NativeObject>,
                outcome: ExecutionOutcome,
            |
                {
                    &&& name@ == fn_name@
                    &&& native_objects_view(objects@) == encode_all(values_view(arguments@))
                    &&& #[trigger] invoke.ensures((name, objects), outcome)
                    &&& executed_view(seen) == execution_result(
                        descriptor_opt_view(outcome.result),
                        error_dict_view(outcome.error),
                    )
                };
            assert(invoke.ensures((name, objects), outcome));
            assert(executed_view(seen) == execution_result(
                descriptor_opt_view(outcome.result),
                error_dict_view(outcome.error),
            ));
        }
    }
    result
}

} // verus!
