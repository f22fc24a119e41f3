//! File reading tool: returns the contents of a file, truncated to a
//! configurable limit (default 64 KB) between characters.

use vstd::prelude::*;

use crate::json::Json;
use crate::text;
use crate::tool::OutputView;
use crate::tool::ToolOutput;
use crate::tool::ToolSpec;

verus! {

/// The default limit in bytes.
pub const MAX_OUTPUT_BYTES: usize = 65_536;

/// Reads a file from disk and returns its contents as a string.
///
/// Output is capped at `max_size` bytes (default 64 KB). I/O errors
/// (missing file, permission denied, etc.) are told to the LLM.
#[derive(Debug, Clone, Copy, PartialEq, Eq, Structural)]
pub struct ReadFileTool {
    /// The limit in bytes.
    pub max_size: usize,
}

/// Builder for [`ReadFileTool`] with a configurable output size limit.
#[derive(Debug, Clone, Copy, PartialEq, Eq, Structural)]
pub struct ReadFileToolBuilder {
    /// The limit in bytes.
    pub max_size: usize,
}

/// Whether `r` is what is said of a file.
pub open spec fn is_report(max_size: nat, read: Result<String, String>, r: ToolOutput) -> bool {
    match read {
        Ok(content) => r.content@ == text::capped(content@, max_size, "\n...[truncated]"@)
            && !r.is_error,
        Err(error) => r.content@ == error@ && r.is_error,
    }
}

impl ReadFileToolBuilder {
    /// Sets the maximum file size in bytes before truncation.
    pub fn max_size(self, max_size: usize) -> (r: Self)
        ensures
            r.max_size == max_size,
    {
        ReadFileToolBuilder { max_size }
    }

    /// Builds the [`ReadFileTool`].
    pub fn build(self) -> (r: ReadFileTool)
        ensures
            r.max_size == self.max_size,
    {
        ReadFileTool { max_size: self.max_size }
    }
}

impl Default for ReadFileTool {
    fn default() -> (r: Self)
        ensures
            r.max_size == 65_536,
    {
        ReadFileTool::new()
    }
}

impl ReadFileTool {
    /// Creates a new `ReadFileTool` with the default 64 KB limit.
    pub fn new() -> (r: Self)
        ensures
            r.max_size == 65_536,
    {
        ReadFileTool { max_size: MAX_OUTPUT_BYTES }
    }

    /// Creates a `ReadFileTool` with a custom max size.
    pub fn with_max_size(max_size: usize) -> (r: Self)
        ensures
            r.max_size == max_size,
    {
        ReadFileTool { max_size }
    }

    /// Returns a builder with default settings.
    pub fn builder() -> (r: ReadFileToolBuilder)
        ensures
            r.max_size == 65_536,
    {
        ReadFileToolBuilder { max_size: MAX_OUTPUT_BYTES }
    }

    /// What the LLM sees, with the JSON Schema of the arguments.
    pub fn spec(&self, parameters: Json) -> (r: ToolSpec)
        ensures
            r.name@ == "read_file"@,
            r.description@ == "Read a file and return its contents"@,
            r.parameters == parameters,
    {
        ToolSpec {
            name: "read_file".to_owned(),
            description: "Read a file and return its contents".to_owned(),
            parameters,
        }
    }

    /// What is said of a file that was read, or of the error that stood against
    /// it. Of a file, no more than `max_size` bytes are given, the mark that says
    /// that something was cut off among them.
    pub fn output(&self, read: Result<String, String>) -> (r: ToolOutput)
        ensures
            r@ == (match read {
                Ok(content) => OutputView {
                    content: text::capped(content@, self.max_size as nat, "\n...[truncated]"@),
                    is_error: false,
                },
                Err(error) => OutputView { content: error@, is_error: true },
            }),
            read is Ok ==> text::byte_len(r.content@) <= self.max_size,
            is_report(self.max_size as nat, read, r),
    {
        match read {
            Ok(content) => ToolOutput {
                content: text::cap_text(content.as_str(), self.max_size, "\n...[truncated]"),
                is_error: false,
            },
            Err(error) => ToolOutput { content: error, is_error: true },
        }
    }
}

/// A file that fits is shown whole; of any other a beginning is shown, and never more
/// than the limit. What stood against reading it is told as an error.
pub proof fn law_files_are_shown(max_size: nat, read: Result<String, String>, r: ToolOutput)
    requires
        is_report(max_size, read, r),
    ensures
        r.is_error <==> read is Err,
        read matches Err(error) ==> r.content@ == error@,
        read matches Ok(content) ==> {
            &&& text::byte_len(r.content@) <= max_size
            &&& text::byte_len(content@) <= max_size ==> r.content@ == content@
            &&& text::byte_len(content@) > max_size ==> exists|k: int|
                0 <= k < content@.len() && (r.content@ == #[trigger] content@.take(k) || r.content@
                    == content@.take(k) + "\n...[truncated]"@)
        },
{
    if let Ok(content) = read {
        text::law_cap_holds(content@, max_size, "\n...[truncated]"@);
        text::law_cap_keeps_the_beginning(content@, max_size, "\n...[truncated]"@);
    }
}

} // verus!
