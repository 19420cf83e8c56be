//! Scripts: their languages, their errors, what the engine's error
//! dictionary says, and the steps of compiling and running.

use crate::descriptor::{Descriptor, DescriptorView};
use crate::input::{
    encode_all, values_vec_to_ns_array, values_view, ScriptInputConversionError,
};
use crate::native::{native_objects_view, NativeObject};
use crate::output::{
    decode, get_value_from_ns_apple_event_descriptor, OutputErrorView,
    ScriptOutputConversionError,
};
use crate::value::{Value, ValueView};
use vstd::prelude::*;
use vstd::string::StringExecFns;

verus! {

/// The languages that the scripting engine runs.
#[derive(Debug, Clone, Copy, PartialEq, Eq, Structural)]
pub enum Language {
    AppleScript,
    JavaScript,
}

/// What the engine's error dictionary holds under its range key.
#[derive(Debug, Clone, Copy, PartialEq, Eq, Structural)]
pub enum RangeEntry {
    /// The dictionary has no range.
    Missing,
    /// The dictionary has something there that is no range.
    Undecodable,
    /// A span of the source text.
    Range { location: usize, length: usize },
}

/// The dictionary in which the scripting engine reports a failure, as far as
/// it is read: the message and the range.
#[derive(Debug, PartialEq, Eq)]
pub struct ErrorDict {
    /// What the dictionary holds under its message key.
    pub message: Option<String>,
    /// What the dictionary holds under its range key.
    pub range: RangeEntry,
}

/// The mathematical model of an [`ErrorDict`].
pub struct ErrorDictView {
    pub message: Option<Seq<char>>,
    pub range: RangeEntry,
}

impl View for ErrorDict {
    type V = ErrorDictView;

    open spec fn view(&self) -> ErrorDictView {
        ErrorDictView {
            message: match self.message {
                Some(text) => Some(text@),
                None => None,
            },
            range: self.range,
        }
    }
}

/// The model of a dictionary that may be absent.
pub open spec fn error_dict_view(dict: Option<ErrorDict>) -> Option<ErrorDictView> {
    match dict {
        Some(dict) => Some(dict@),
        None => None,
    }
}

/// The span that a range entry names; where it names none, the empty span
/// at the start.
pub open spec fn span_of(range: RangeEntry) -> (usize, usize) {
    match range {
        RangeEntry::Range { location, length } => (location, length),
        _ => (0, 0),
    }
}

/// What is read out of an error dictionary: nothing where there is no
/// dictionary or no message in it; else the message and the span.
pub open spec fn error_data(dict: Option<ErrorDictView>) -> Option<(Seq<char>, (usize, usize))> {
    match dict {
        None => None,
        Some(dict) => match dict.message {
            None => None,
            Some(message) => Some((message, span_of(dict.range))),
        },
    }
}

/// Reads the message and the span out of an error dictionary.
pub fn extract_error_data(error_dict_opt: Option<ErrorDict>) -> (data: Option<
    (String, (usize, usize)),
>)
    ensures
        match error_data(error_dict_view(error_dict_opt)) {
            None => data is None,
            Some((message, span)) => data matches Some(found) && found.0@ == message && found.1
                == span,
        },
{
    match error_dict_opt {
        None => None,
        Some(error_dict) => match error_dict.message {
            None => None,
            Some(message) => Some(
                (
                    message,
                    match error_dict.range {
                        RangeEntry::Range { location, length } => (location, length),
                        _ => (0, 0),
                    },
                ),
            ),
        },
    }
}

/// Why a script did not compile.
#[derive(Debug, PartialEq, Eq)]
pub enum ScriptCompilationError {
    /// The engine failed and gave no message.
    Unknown,
    /// The engine refused the source.
    Failure { message: String, location: usize, length: usize },
}

/// The mathematical model of a [`ScriptCompilationError`].
pub enum CompilationErrorView {
    Unknown,
    Failure { message: Seq<char>, location: usize, length: usize },
}

impl View for ScriptCompilationError {
    type V = CompilationErrorView;

    open spec fn view(&self) -> CompilationErrorView {
        match self {
            ScriptCompilationError::Unknown => CompilationErrorView::Unknown,
            ScriptCompilationError::Failure { message, location, length } =>
                CompilationErrorView::Failure {
                    message: message@,
                    location: *location,
                    length: *length,
                },
        }
    }
}

/// Why a script did not run to a value.
#[derive(Debug, PartialEq, Eq)]
pub enum ScriptExecutionError {
    /// The engine failed and gave no message.
    Unknown,
    /// The script raised an error while it ran.
    Runtime { message: String, location: usize, length: usize },
    /// The result could not be turned into a value.
    OutputConversion(ScriptOutputConversionError),
    /// An argument could not be turned into a native object.
    InputConversion(ScriptInputConversionError),
    /// The call was not made on the main thread.
    MainThread,
}

/// The mathematical model of a [`ScriptExecutionError`].
pub enum ExecutionErrorView {
    Unknown,
    Runtime { message: Seq<char>, location: usize, length: usize },
    OutputConversion(OutputErrorView),
    InputConversion(Seq<char>),
    MainThread,
}

impl View for ScriptExecutionError {
    type V = ExecutionErrorView;

    open spec fn view(&self) -> ExecutionErrorView {
        match self {
            ScriptExecutionError::Unknown => ExecutionErrorView::Unknown,
            ScriptExecutionError::Runtime { message, location, length } =>
                ExecutionErrorView::Runtime {
                    message: message@,
                    location: *location,
                    length: *length,
                },
            ScriptExecutionError::OutputConversion(error) => ExecutionErrorView::OutputConversion(
                error@,
            ),
            ScriptExecutionError::InputConversion(
                ScriptInputConversionError::NumberConversionError(text),
            ) => ExecutionErrorView::InputConversion(text@),
            ScriptExecutionError::MainThread => ExecutionErrorView::MainThread,
        }
    }
}

impl From<ScriptOutputConversionError> for ScriptExecutionError {
    fn from(error: ScriptOutputConversionError) -> (wrapped: ScriptExecutionError) {
        ScriptExecutionError::OutputConversion(error)
    }
}

impl vstd::std_specs::convert::FromSpecImpl<ScriptOutputConversionError> for ScriptExecutionError {
    open spec fn obeys_from_spec() -> bool {
        true
    }

    open spec fn from_spec(error: ScriptOutputConversionError) -> ScriptExecutionError {
        ScriptExecutionError::OutputConversion(error)
    }
}

impl From<ScriptInputConversionError> for ScriptExecutionError {
    fn from(error: ScriptInputConversionError) -> (wrapped: ScriptExecutionError) {
        ScriptExecutionError::InputConversion(error)
    }
}

impl vstd::std_specs::convert::FromSpecImpl<ScriptInputConversionError> for ScriptExecutionError {
    open spec fn obeys_from_spec() -> bool {
        true
    }

    open spec fn from_spec(error: ScriptInputConversionError) -> ScriptExecutionError {
        ScriptExecutionError::InputConversion(error)
    }
}

/// The model of what running a script gives: of the value, or of the error.
pub open spec fn executed_view(result: Result<Value, ScriptExecutionError>) -> Result<
    ValueView,
    ExecutionErrorView,
> {
    match result {
        Ok(value) => Ok(value@),
        Err(error) => Err(error@),
    }
}

/// The name of the main thread.
pub open spec fn main_thread_name() -> Seq<char> {
    seq!['m', 'a', 'i', 'n']
}

/// Whether a thread with this name, if it has one, is the main thread.
pub open spec fn is_main_thread(thread_name: Option<&str>) -> bool {
    match thread_name {
        Some(name) => name@ == main_thread_name(),
        None => false,
    }
}

/// Refuses every thread but the main one: the scripting engine can be used
/// from the main thread only.
pub fn check_main_thread(thread_name: Option<&str>) -> (result: Result<(), ScriptExecutionError>)
    ensures
        is_main_thread(thread_name) ==> result is Ok,
        !is_main_thread(thread_name) ==> result is Err && result->Err_0@
            == ExecutionErrorView::MainThread,
{
    proof {
        reveal_strlit("main");
        assert("main"@ =~= main_thread_name());
    }
    match thread_name {
        Some(name) => {
            if name.to_owned() == "main".to_owned() {
                Ok(())
            } else {
                Err(ScriptExecutionError::MainThread)
            }
        },
        None => Err(ScriptExecutionError::MainThread),
    }
}

/// What the scripting engine hands back after it ran a script or one of
/// its functions: a result descriptor, an error dictionary, or neither.
#[derive(Debug, PartialEq, Eq)]
pub struct ExecutionOutcome {
    /// The descriptor of the result, where the run gave one.
    pub result: Option<Descriptor>,
    /// The error dictionary, where the run failed.
    pub error: Option<ErrorDict>,
}

/// The model of a descriptor that may be absent.
pub open spec fn descriptor_opt_view(descriptor: Option<Descriptor>) -> Option<DescriptorView> {
    match descriptor {
        Some(descriptor) => Some(descriptor@),
        None => None,
    }
}

/// What a run comes to. An error dictionary means failure, whatever else
/// came back: with a message it is a runtime error at the span that the
/// dictionary names, without one an unknown error. Without a dictionary the
/// result descriptor is decoded, and no descriptor at all is null.
pub open spec fn execution_result(
    result: Option<DescriptorView>,
    error: Option<ErrorDictView>,
) -> Result<ValueView, ExecutionErrorView> {
    match error {
        None => match result {
            Some(descriptor) => match decode(descriptor) {
                Ok(value) => Ok(value),
                Err(error) => Err(ExecutionErrorView::OutputConversion(error)),
            },
            None => Ok(ValueView::Null),
        },
        Some(dict) => match error_data(Some(dict)) {
            None => Err(ExecutionErrorView::Unknown),
            Some((message, span)) => Err(
                ExecutionErrorView::Runtime { message, location: span.0, length: span.1 },
            ),
        },
    }
}

/// What an attempt to compile comes to: success, or the failure that the
/// error dictionary names, or an unknown failure where it names none.
pub open spec fn compilation_result(outcome: Result<(), Option<ErrorDictView>>) -> Result<
    (),
    CompilationErrorView,
> {
    match outcome {
        Ok(()) => Ok(()),
        Err(dict) => match error_data(dict) {
            None => Err(CompilationErrorView::Unknown),
            Some((message, span)) => Err(
                CompilationErrorView::Failure { message, location: span.0, length: span.1 },
            ),
        },
    }
}

/// One call to compile, where `compiled` says whether the script was
/// compiled before and `outcome` what the engine answers if it is asked:
/// whether the script is compiled afterwards, and the answer of the call.
/// A compiled script stays compiled and the engine's answer does not count.
pub open spec fn compile_step(compiled: bool, outcome: Result<(), Option<ErrorDictView>>) -> (
    bool,
    Result<(), CompilationErrorView>,
) {
    if compiled {
        (true, Ok(()))
    } else {
        (outcome is Ok, compilation_result(outcome))
    }
}

/// The model of what the engine answers to a request to compile.
pub open spec fn compile_outcome_view(outcome: Result<(), Option<ErrorDict>>) -> Result<
    (),
    Option<ErrorDictView>,
> {
    match outcome {
        Ok(()) => Ok(()),
        Err(dict) => Err(error_dict_view(dict)),
    }
}

/// The model of what compiling gives.
pub open spec fn compiled_view(result: Result<(), ScriptCompilationError>) -> Result<
    (),
    CompilationErrorView,
> {
    match result {
        Ok(()) => Ok(()),
        Err(error) => Err(error@),
    }
}

/// Text as the debug form of a string shows it: between double quotes, with
/// what cannot stand there as it is escaped.
pub uninterp spec fn debug_quoted(text: Seq<char>) -> Seq<char>;

/// `format!` with `{:?}` on a string slice writes the slice in its debug
/// form, which depends on the characters of the slice alone.
#[verifier::external_body]
fn debug_quote(text: &str) -> (quoted: String)
    ensures
        quoted@ == debug_quoted(text@),
{
    format!("{:?}", text)
}

/// The name of a language.
pub open spec fn language_name_text(language: Language) -> Seq<char> {
    match language {
        Language::AppleScript => seq!['A', 'p', 'p', 'l', 'e', 'S', 'c', 'r', 'i', 'p', 't'],
        Language::JavaScript => seq!['J', 'a', 'v', 'a', 'S', 'c', 'r', 'i', 'p', 't'],
    }
}

/// The name under which the scripting engine knows a language.
pub fn language_name(language: Language) -> (name: &'static str)
    ensures
        name@ == language_name_text(language),
{
    proof {
        reveal_strlit("AppleScript");
        reveal_strlit("JavaScript");
    }
    match language {
        Language::AppleScript => {
            assert("AppleScript"@ =~= language_name_text(Language::AppleScript));
            "AppleScript"
        },
        Language::JavaScript => {
            assert("JavaScript"@ =~= language_name_text(Language::JavaScript));
            "JavaScript"
        },
    }
}

/// How a script is shown for inspection: the name of its language, or `?`
/// where the name is not known; its source in debug form; and whether it is
/// compiled.
pub open spec fn debug_text(
    language_name: Option<Seq<char>>,
    source: Seq<char>,
    compiled: bool,
) -> Seq<char> {
    "Script { language: Language::"@ + (match language_name {
        Some(name) => name,
        None => "?"@,
    }) + ", source: "@ + debug_quoted(source) + ", compiled: "@ + (if compiled {
        "true"@
    } else {
        "false"@
    }) + " }"@
}

/// Shows a script for inspection.
pub fn render_debug(language_name: Option<&str>, source: &str, compiled: bool) -> (text: String)
    ensures
        text@ == debug_text(
            match language_name {
                Some(name) => Some(name@),
                None => None,
            },
            source@,
            compiled,
        ),
{
    let mut text = "Script { language: Language::".to_owned();
    match language_name {
        Some(name) => text.append(name),
        None => text.append("?"),
    }
    text.append(", source: ");
    let quoted = debug_quote(source);
    text.append(quoted.as_str());
    text.append(", compiled: ");
    if compiled {
        text.append("true");
    } else {
        text.append("false");
    }
    text.append(" }");
    text
}

/// A script: source text in one of the engine's languages, and whether the
/// engine has compiled it. A script starts out not compiled, and once
/// compiled it stays so.
pub struct Script {
    language: Language,
    source: String,
    compiled: bool,
}

impl Script {
    /// The language of the script.
    pub closed spec fn spec_language(&self) -> Language {
        self.language
    }

    /// The source text of the script.
    pub closed spec fn spec_source(&self) -> String {
        self.source
    }

    /// Whether the script is compiled.
    pub closed spec fn spec_is_compiled(&self) -> bool {
        self.compiled
    }

    /// A script of the given language and source, not yet compiled.
    pub fn new_from_source(language: Language, source: &str) -> (script: Script)
        ensures
            script.spec_language() == language,
            script.spec_source()@ == source@,
            !script.spec_is_compiled(),
    {
        Script { language, source: source.to_owned(), compiled: false }
    }

    /// The language of the script.
    #[verifier::when_used_as_spec(spec_language)]
    pub fn language(&self) -> (language: Language)
        ensures
            language == self.spec_language(),
    {
        self.language
    }

    /// The source text of the script.
    pub fn source(&self) -> (source: &str)
        ensures
            source@ == self.spec_source()@,
    {
        self.source.as_str()
    }

    /// Whether the script is compiled.
    #[verifier::when_used_as_spec(spec_is_compiled)]
    pub fn is_compiled(&self) -> (compiled: bool)
        ensures
            compiled == self.spec_is_compiled(),
    {
        self.compiled
    }

    /// Shows the script for inspection: its language, its source and
    /// whether it is compiled.
    pub fn debug_string(&self) -> (text: String)
        ensures
            text@ == debug_text(
                Some(language_name_text(self.spec_language())),
                self.spec_source()@,
                self.spec_is_compiled(),
            ),
    {
        render_debug(Some(language_name(self.language)), self.source.as_str(), self.compiled)
    }

    /// Takes note of what the engine answered to a request to compile this
    /// script: on success the script is compiled from now on, on failure it
    /// stays as it was and the error says what the engine reported.
    pub fn process_compilation_result(&mut self, outcome: Result<(), Option<ErrorDict>>) -> (result:
        Result<(), ScriptCompilationError>)
        ensures
            compiled_view(result) == compilation_result(compile_outcome_view(outcome)),
            final(self).spec_language() == old(self).spec_language(),
            final(self).spec_source() == old(self).spec_source(),
            final(self).spec_is_compiled() == (old(self).spec_is_compiled() || outcome is Ok),
    {
        match outcome {
            Ok(()) => {
                self.compiled = true;
                Ok(())
            },
            Err(error_opt) => match extract_error_data(error_opt) {
                None => Err(ScriptCompilationError::Unknown),
                Some((message, (location, length))) => Err(
                    ScriptCompilationError::Failure { message, location, length },
                ),
            },
        }
    }

    /// Compiles the script. A script that is compiled already is left alone
    /// and the engine is not asked. Else `compiler` is asked once, with the
    /// language and the source of the script; where it accepts them the
    /// script is compiled from now on, and where it refuses them the script
    /// stays not compiled and the error says what the engine reported.
    pub fn compile<C>(&mut self, compiler: C) -> (result: Result<(), ScriptCompilationError>)
        where C: FnOnce(Language, String) -> Result<(), Option<ErrorDict>>
        requires
            !old(self).spec_is_compiled() ==> compiler.requires(
                (old(self).spec_language(), old(self).spec_source()),
            ),
        ensures
            final(self).spec_language() == old(self).spec_language(),
            final(self).spec_source() == old(self).spec_source(),
            old(self).spec_is_compiled() ==> result is Ok && final(self).spec_is_compiled(),
            !old(self).spec_is_compiled() ==> exists|outcome: Result<(), Option<ErrorDict>>|
                {
                    &&& #[trigger] compiler.ensures(
                        (old(self).spec_language(), old(self).spec_source()),
                        outcome,
                    )
                    &&& (final(self).spec_is_compiled(), compiled_view(result)) == compile_step(
                        false,
                        compile_outcome_view(outcome),
                    )
                },
    {
        if self.compiled {
            return Ok(());
        }
        let outcome = compiler(self.language, self.source.clone());
        self.process_compilation_result(outcome)
    }

    /// What a run of the engine comes to: the value of the result, null
    /// where the run gave no result, or the error.
    pub fn process_execution_result(
        result: Option<Descriptor>,
        error_opt: Option<ErrorDict>,
    ) -> (value: Result<Value, ScriptExecutionError>)
        ensures
            executed_view(value) == execution_result(
                descriptor_opt_view(result),
                error_dict_view(error_opt),
            ),
    {
        match error_opt {
            None => match result {
                Some(event_descriptor) => {
                    match get_value_from_ns_apple_event_descriptor(&event_descriptor) {
                        Ok(value) => Ok(value),
                        Err(error) => Err(ScriptExecutionError::OutputConversion(error)),
                    }
                },
                None => Ok(Value::Null),
            },
            Some(error) => match extract_error_data(Some(error)) {
                None => Err(ScriptExecutionError::Unknown),
                Some((message, (location, length))) => Err(
                    ScriptExecutionError::Runtime { message, location, length },
                ),
            },
        }
    }

    /// Runs the script. The thread is checked first: on any thread but the
    /// main one the answer is `MainThread` and the engine is not asked.
    /// Else `run` is asked once and its answer is turned into a value or an
    /// error.
    pub fn execute<R>(&self, thread_name: Option<&str>, run: R) -> (value: Result<
        Value,
        ScriptExecutionError,
    >)
        where R: FnOnce() -> ExecutionOutcome
        requires
            is_main_thread(thread_name) ==> run.requires(()),
        ensures
            !is_main_thread(thread_name) ==> executed_view(value) == Err::<
                ValueView,
                ExecutionErrorView,
            >(ExecutionErrorView::MainThread),
            is_main_thread(thread_name) ==> exists|outcome: ExecutionOutcome|
                {
                    &&& #[trigger] run.ensures((), outcome)
                    &&& executed_view(value) == execution_result(
                        descriptor_opt_view(outcome.result),
                        error_dict_view(outcome.error),
                    )
                },
    {
        match check_main_thread(thread_name) {
            Err(error) => {
                return Err(error);
            },
            Ok(()) => {},
        }
        let outcome = run();
        let ghost seen = outcome;
        let value = Script::process_execution_result(outcome.result, outcome.error);
        assert(run.ensures((), seen));
        value
    }

    /// Runs a function of the script with the given arguments. The thread
    /// is checked first: on any thread but the main one the answer is
    /// `MainThread`, no argument is converted and the engine is not asked.
    /// Else the arguments are turned into native objects, `invoke` is asked
    /// once with the name of the function and those objects, and its answer
    /// is turned into a value or an error.
    pub fn execute_function<I>(
        &self,
        function_name: &str,
        arguments: Vec<Value>,
        thread_name: Option<&str>,
        invoke: I,
    ) -> (value: Result<Value, ScriptExecutionError>)
        where I: FnOnce(String, Vec<NativeObject>) -> ExecutionOutcome
        requires
            is_main_thread(thread_name) ==> forall|name: String, objects: Vec<NativeObject>|
                name@ == function_name@ && native_objects_view(objects@) == encode_all(
                    values_view(arguments@),
                ) ==> #[trigger] invoke.requires((name, objects)),
        ensures
            !is_main_thread(thread_name) ==> executed_view(value) == Err::<
                ValueView,
                ExecutionErrorView,
            >(ExecutionErrorView::MainThread),
            is_main_thread(thread_name) ==> exists|
                name: String,
                objects: Vec<NativeObject>,
                outcome: ExecutionOutcome,
            |
                {
                    &&& name@ == function_name@
                    &&& native_objects_view(objects@) == encode_all(values_view(arguments@))
                    &&& #[trigger] invoke.ensures((name, objects), outcome)
                    &&& executed_view(value) == execution_result(
                        descriptor_opt_view(outcome.result),
                        error_dict_view(outcome.error),
                    )
                },
    {
        match check_main_thread(thread_name) {
            Err(error) => {
                return Err(error);
            },
            Ok(()) => {},
        }
        let handler_name = function_name.to_owned();
        let native_arguments = match values_vec_to_ns_array(&arguments) {
            Ok(objects) => objects,
            Err(error) => {
                return Err(ScriptExecutionError::InputConversion(error));
            },
        };
        let ghost name = handler_name;
        let ghost objects = native_arguments;
        let outcome = invoke(handler_name, native_arguments);
        let ghost seen = outcome;
        let value = Script::process_execution_result(outcome.result, outcome.error);
        assert(invoke.ensures((name, objects), seen));
        value
    }
}

} // verus!
