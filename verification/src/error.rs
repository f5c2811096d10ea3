//! The ways in which a command can fail.

use vstd::prelude::*;

verus! {

/// Why a command was not carried out.
#[derive(Clone, Copy, Debug, PartialEq, Eq, Structural)]
pub enum ToolError {
    /// A required positional argument or flag is absent.
    MissingArgument,
    /// The command asks for something that is not implemented.
    UnsupportedOperation,
    /// A file, a directory or a child process could not be used.
    IOFailure,
    /// The project metadata does not parse or cannot be encoded.
    SerializationFailure,
    /// An external tool did not report a usable version or log.
    ResolverFailure,
}

impl ToolError {
    /// The sentence that describes the error.
    pub open spec fn description(self) -> Seq<char> {
        match self {
            ToolError::MissingArgument => "a required argument is missing"@,
            ToolError::UnsupportedOperation => "this operation is not supported yet"@,
            ToolError::IOFailure => "a file, directory or process could not be used"@,
            ToolError::SerializationFailure => "the project metadata could not be read or written"@,
            ToolError::ResolverFailure => "the external tool reported no usable result"@,
        }
    }

    /// The sentence that describes the error, for a message to the user.
    pub fn message(&self) -> (text: String)
        ensures
            text@ == self.description(),
    {
        match self {
            ToolError::MissingArgument => "a required argument is missing".to_owned(),
            ToolError::UnsupportedOperation => "this operation is not supported yet".to_owned(),
            ToolError::IOFailure => "a file, directory or process could not be used".to_owned(),
            ToolError::SerializationFailure => "the project metadata could not be read or written".to_owned(),
            ToolError::ResolverFailure => "the external tool reported no usable result".to_owned(),
        }
    }
}

} // verus!
