//! What a compilation reads first: a file under a project root, or text held
//! in memory.

use vstd::prelude::*;

use crate::errors::WrapperError;
use crate::text::{seq_contains, text_contains};

verus! {

/// The marker that names the in-memory main file. No caller-supplied
/// filename or root may contain it, so that it never collides with a real path.
pub const RESERVED_IN_MEMORY_IDENTIFIER: &'static str = "CUSTOM_SOURCE_CONTENT_INPUT_IN_MEMORY_FILE";

/// The marker's characters.
pub open spec fn reserved_marker() -> Seq<char> {
    RESERVED_IN_MEMORY_IDENTIFIER@
}

/// Compilation input.
#[derive(Clone, Debug)]
pub enum Input {
    /// The main file `entry` (a filename) inside the project directory `root`.
    File { entry: String, root: String },
    /// Document text held in memory.
    Content(String),
}

impl Input {
    /// The input names a file or root that holds the reserved marker.
    pub open spec fn spec_is_forbidden(&self) -> bool {
        match self {
            Input::Content(_) => false,
            Input::File { entry, root } => seq_contains(entry@, reserved_marker())
                || seq_contains(root@, reserved_marker()),
        }
    }

    /// Checks whether the input holds the reserved marker in its filename or
    /// root path.
    pub fn is_forbidden(&self) -> (r: bool)
        ensures
            r == self.spec_is_forbidden(),
    {
        match self {
            Input::Content(_) => false,
            Input::File { entry, root } => {
                if text_contains(entry.as_str(), RESERVED_IN_MEMORY_IDENTIFIER) {
                    return true;
                }
                text_contains(root.as_str(), RESERVED_IN_MEMORY_IDENTIFIER)
            },
        }
    }

    /// Input whose document text is `content`.
    pub fn content(content: String) -> (r: Self)
        ensures
            r == Input::Content(content),
    {
        Input::Content(content)
    }

    /// Input read from the file `entry` inside the directory `root`.
    pub fn file(entry: String, root: String) -> (r: Self)
        ensures
            r == (Input::File { entry, root }),
    {
        Input::File { entry, root }
    }
}

impl From<String> for Input {
    fn from(content: String) -> (r: Input)
        ensures
            r == Input::Content(content),
    {
        Input::Content(content)
    }
}

impl vstd::std_specs::convert::FromSpecImpl<String> for Input {
    open spec fn obeys_from_spec() -> bool {
        true
    }

    open spec fn from_spec(content: String) -> Input {
        Input::Content(content)
    }
}

impl From<(String, String)> for Input {
    /// The first element names the main file, the second the project root.
    fn from(value: (String, String)) -> (r: Input)
        ensures
            r == (Input::File { entry: value.0, root: value.1 }),
    {
        Input::File { entry: value.0, root: value.1 }
    }
}

impl vstd::std_specs::convert::FromSpecImpl<(String, String)> for Input {
    open spec fn obeys_from_spec() -> bool {
        true
    }

    open spec fn from_spec(value: (String, String)) -> Input {
        Input::File { entry: value.0, root: value.1 }
    }
}

/// Refuses an input whose filename or root holds the reserved marker.
pub fn validate_input(input: &Input) -> (r: Result<(), WrapperError>)
    ensures
        input.spec_is_forbidden() <==> r is Err,
        r is Err ==> r == Err::<(), WrapperError>(WrapperError::ForbiddenFilenamePathText),
{
    if input.is_forbidden() {
        Err(WrapperError::ForbiddenFilenamePathText)
    } else {
        Ok(())
    }
}

/// A virtual path that names the in-memory main file, which is answered
/// from memory and never from disk.
pub fn is_in_memory_path(vpath: &str) -> (r: bool)
    ensures
        r == seq_contains(vpath@, reserved_marker()),
{
    text_contains(vpath, RESERVED_IN_MEMORY_IDENTIFIER)
}

} // verus!
