//! Declarative span instrumentation for functions.
//!
//! The library reads the options attached to a function (`skip`, `skip_all`,
//! `fields`, `ret`, `err`, `name`, `parent`), analyses the function's
//! signature, and turns both into a [`WrapperPlan`]: the ordered instructions
//! that a code generator emits around the original body.
pub mod tokens;
pub mod syntax;
pub mod config;
pub mod signature;
pub mod plan;
pub mod tracer;
pub mod laws;

pub use config::{parse_config, Config, DefinitionError, ErrorCapture, Field};
pub use plan::{
    instrument, synthesize, Attribute, CallArg, Step, ValueSource, WrapperPlan,
};
pub use signature::{analyze_signature, Binding, FunctionDescriptor, Param};
pub use tokens::{tokens_source, Delimiter, Token};
pub use tracer::tracer_name;
