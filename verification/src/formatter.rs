//! Output format selection and failure plumbing for the management
//! command-line tools. The rendering itself (JSON or YAML text) is I/O
//! and lives with the callers; the library only fixes which format was
//! chosen and what a failure carries.

use vstd::prelude::*;
use vstd::string::*;
use crate::errors::CoreError;

verus! {

/// How a management result is rendered.
#[derive(Debug, Clone, Copy, PartialEq, Eq, Structural)]
pub enum OutputFormat {
    Json,
    Yaml,
}

/// The chosen output format; YAML when none was asked for.
pub struct Formatter {
    pub format: OutputFormat,
}

impl Formatter {
    pub fn new(format: Option<OutputFormat>) -> (r: Self)
        ensures
            r.format == match format {
                Some(x) => x,
                None => OutputFormat::Yaml,
            },
    {
        Formatter {
            format: match format {
                Some(x) => x,
                None => OutputFormat::Yaml,
            },
        }
    }

    /// A failure with the given description.
    pub fn fail(&self, msg: &'static str) -> (r: Result<(), String>)
        ensures
            r matches Err(m) && m@ == msg@,
    {
        Err(String::from_str(msg))
    }

    /// Passes a failure through unchanged.
    pub fn wrap_error(&self, e: CoreError) -> (r: Result<(), CoreError>)
        ensures
            r == Err::<(), CoreError>(e),
    {
        Err(e)
    }
}

} // verus!
