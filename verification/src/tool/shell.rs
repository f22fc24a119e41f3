//! Shell command tool: what is said of a command that was run with a
//! configurable timeout and output limit.

use vstd::prelude::*;

use crate::error::ToolError;
use crate::json::Json;
use crate::text;
use crate::time::Duration;
use crate::tool::OutputView;
use crate::tool::ToolOutput;
use crate::tool::ToolSpec;

verus! {

/// The default limit in bytes.
pub const MAX_OUTPUT_BYTES: usize = 32_768;

/// How a command ended.
#[derive(Debug)]
pub enum ShellOutcome {
    /// It ran to its end.
    Finished {
        /// Whether its exit status says success.
        success: bool,
        /// What it wrote to standard output.
        stdout: String,
        /// What it wrote to standard error.
        stderr: String,
    },
    /// It could not be started or waited for.
    Failed(String),
    /// The timeout passed.
    TimedOut,
}

/// Runs shell commands on the host.
///
/// Output (stdout on success, stderr on failure) is capped at
/// `max_output` bytes (default 32 KB) between characters.
#[derive(Debug, Clone, Copy, PartialEq, Eq, Structural)]
pub struct ShellTool {
    /// How long a command may run.
    pub timeout: Duration,
    /// The limit in bytes.
    pub max_output: usize,
}

/// Builder for [`ShellTool`] with configurable timeout and output limit.
#[derive(Debug, Clone, Copy, PartialEq, Eq, Structural)]
pub struct ShellToolBuilder {
    /// How long a command may run.
    pub timeout: Duration,
    /// The limit in bytes.
    pub max_output: usize,
}

/// What is shown of a command: standard output on success; on failure standard
/// error, or standard output if that is empty.
pub open spec fn shown(success: bool, stdout: Seq<char>, stderr: Seq<char>) -> Seq<char> {
    if success || stderr.len() == 0 {
        stdout
    } else {
        stderr
    }
}

/// Whether `r` is what is said of a command.
pub open spec fn is_report(
    max_output: nat,
    outcome: ShellOutcome,
    r: Result<ToolOutput, ToolError>,
) -> bool {
    match outcome {
        ShellOutcome::Finished { success, stdout, stderr } => {
            &&& r matches Ok(output)
            &&& output.content@ == text::capped(
                shown(success, stdout@, stderr@),
                max_output,
                "\n...[truncated]"@,
            )
            &&& output.is_error == !success
        },
        ShellOutcome::Failed(error) => r matches Err(ToolError::ExecutionFailed(what)) && what@
            == error@,
        ShellOutcome::TimedOut => r matches Err(ToolError::ExecutionFailed(what)) && what@
            == "command timed out"@,
    }
}

impl ShellToolBuilder {
    /// Sets the command timeout.
    pub fn timeout(self, timeout: Duration) -> (r: Self)
        ensures
            r == (ShellToolBuilder { timeout, ..self }),
    {
        ShellToolBuilder { timeout, ..self }
    }

    /// Sets the maximum output size in bytes before truncation.
    pub fn max_output(self, max_output: usize) -> (r: Self)
        ensures
            r == (ShellToolBuilder { max_output, ..self }),
    {
        ShellToolBuilder { max_output, ..self }
    }

    /// Builds the [`ShellTool`].
    pub fn build(self) -> (r: ShellTool)
        ensures
            r.timeout == self.timeout,
            r.max_output == self.max_output,
    {
        ShellTool { timeout: self.timeout, max_output: self.max_output }
    }
}

impl Default for ShellTool {
    fn default() -> (r: Self)
        ensures
            r.timeout.nanos == 30_000_000_000,
            r.max_output == 32_768,
    {
        ShellTool::new()
    }
}

impl ShellTool {
    /// Creates a `ShellTool` with a 30-second timeout.
    pub fn new() -> (r: Self)
        ensures
            r.timeout.nanos == 30_000_000_000,
            r.max_output == 32_768,
    {
        ShellTool::with_timeout(Duration::from_secs(30))
    }

    /// Creates a `ShellTool` with a custom timeout.
    pub fn with_timeout(timeout: Duration) -> (r: Self)
        ensures
            r.timeout == timeout,
            r.max_output == 32_768,
    {
        ShellTool { timeout, max_output: MAX_OUTPUT_BYTES }
    }

    /// Returns a builder with default settings.
    pub fn builder() -> (r: ShellToolBuilder)
        ensures
            r.timeout.nanos == 30_000_000_000,
            r.max_output == 32_768,
    {
        ShellToolBuilder { timeout: Duration::from_secs(30), max_output: MAX_OUTPUT_BYTES }
    }

    /// What the LLM sees, with the JSON Schema of the arguments.
    pub fn spec(&self, parameters: Json) -> (r: ToolSpec)
        ensures
            r.name@ == "shell"@,
            r.description@ == "Run a shell command"@,
            r.parameters == parameters,
    {
        ToolSpec {
            name: "shell".to_owned(),
            description: "Run a shell command".to_owned(),
            parameters,
        }
    }

    /// What is said of a command: standard output on success; on failure
    /// standard error, or standard output if that is empty. No more than
    /// `max_output` bytes are given, the mark that says that something was cut off
    /// among them.
    pub fn output(&self, outcome: ShellOutcome) -> (r: Result<ToolOutput, ToolError>)
        ensures
            match outcome {
                ShellOutcome::Finished { success, stdout, stderr } => {
                    &&& r matches Ok(output)
                    &&& output@ == (OutputView {
                        content: text::capped(
                            if success || stderr@.len() == 0 {
                                stdout@
                            } else {
                                stderr@
                            },
                            self.max_output as nat,
                            "\n...[truncated]"@,
                        ),
                        is_error: !success,
                    })
                    &&& text::byte_len(output.content@) <= self.max_output
                },
                ShellOutcome::Failed(error) => r matches Err(ToolError::ExecutionFailed(what))
                    && what@ == error@,
                ShellOutcome::TimedOut => r matches Err(ToolError::ExecutionFailed(what)) && what@
                    == "command timed out"@,
            },
            is_report(self.max_output as nat, outcome, r),
    {
        match outcome {
            ShellOutcome::Finished { success, stdout, stderr } => {
                let shown = if success || stderr.as_str().is_empty() {
                    stdout
                } else {
                    stderr
                };
                Ok(
                    ToolOutput {
                        content: text::cap_text(
                            shown.as_str(),
                            self.max_output,
                            "\n...[truncated]",
                        ),
                        is_error: !success,
                    },
                )
            },
            ShellOutcome::Failed(error) => Err(ToolError::ExecutionFailed(error)),
            ShellOutcome::TimedOut => Err(
                ToolError::ExecutionFailed("command timed out".to_owned()),
            ),
        }
    }
}

/// What the LLM is told of a command that ran: a failure is an error. A command that
/// succeeded shows its standard output; one that failed shows its standard error, or
/// its standard output if it wrote no error. What fits is shown whole, and more than
/// the limit is never shown.
pub proof fn law_commands_are_reported(
    max_output: nat,
    success: bool,
    stdout: String,
    stderr: String,
    r: Result<ToolOutput, ToolError>,
)
    requires
        is_report(max_output, ShellOutcome::Finished { success, stdout, stderr }, r),
    ensures
        r matches Ok(output) && {
            &&& output.is_error <==> !success
            &&& text::byte_len(output.content@) <= max_output
            &&& success && text::byte_len(stdout@) <= max_output ==> output.content@ == stdout@
            &&& !success && stderr@.len() > 0 && text::byte_len(stderr@) <= max_output
                ==> output.content@ == stderr@
            &&& !success && stderr@.len() == 0 && text::byte_len(stdout@) <= max_output
                ==> output.content@ == stdout@
        },
{
    text::law_cap_holds(shown(success, stdout@, stderr@), max_output, "\n...[truncated]"@);
}

/// A command that did not run to its end is a failure of the tool, which is worth
/// another attempt.
pub proof fn law_unfinished_commands_fail(
    max_output: nat,
    outcome: ShellOutcome,
    r: Result<ToolOutput, ToolError>,
)
    requires
        is_report(max_output, outcome, r),
    ensures
        outcome is Finished <==> r is Ok,
        r matches Err(error) ==> error.class() is Transient,
        outcome matches ShellOutcome::Failed(what) ==> (
        r matches Err(ToolError::ExecutionFailed(told)) && told@ == what@),
{
}

} // verus!
