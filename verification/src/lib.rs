//! A uniform value model for a scripting engine that runs AppleScript and
//! JavaScript: values are turned into the native objects that the engine
//! takes as arguments, the descriptors that it hands back are turned into
//! values, its error dictionaries into structured errors, and a script
//! keeps track of whether it has been compiled.

pub mod descriptor;
pub mod float_bits;
pub mod four_char_code;
pub mod input;
pub mod laws;
pub mod macros;
pub mod native;
pub mod number;
pub mod output;
pub mod round_trip;
pub mod script;
pub mod value;

pub use descriptor::Descriptor;
pub use input::ScriptInputConversionError;
pub use macros::ScriptFunctionRunError;
pub use native::NativeObject;
pub use number::Number;
pub use output::ScriptOutputConversionError;
pub use script::{
    ErrorDict, ExecutionOutcome, Language, RangeEntry, Script, ScriptCompilationError,
    ScriptExecutionError,
};
pub use value::{Object, Value};
