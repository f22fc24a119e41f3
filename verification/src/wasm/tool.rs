//! What an invocation of a WASM tool gives back.

use vstd::prelude::*;

use crate::error::ToolError;
use crate::text::join2;
use crate::tool::ToolOutput;

verus! {

/// How an invocation failed.
#[derive(Debug)]
pub enum InvokeFailure {
    /// The module could not be set up.
    Setup(String),
    /// An export that the module must have is missing.
    MissingExport(String),
    /// The module has no memory to pass arguments in.
    MissingMemory,
    /// The module ran past its deadline and was interrupted.
    Interrupted,
    /// The module trapped.
    Trap(String),
    /// What the module returned is no tool output.
    InvalidOutput,
    /// The invocation was dropped before it ended.
    Dropped,
}

/// Whether `error` is what a failure is reported as.
pub open spec fn reports(failure: InvokeFailure, error: ToolError) -> bool {
    match failure {
        InvokeFailure::Setup(what) => error matches ToolError::ExecutionFailed(message) && message@
            == what@,
        InvokeFailure::MissingExport(name) => error matches ToolError::WasmTrap(message)
            && message@ == "missing required export: "@ + name@,
        InvokeFailure::MissingMemory => error matches ToolError::WasmTrap(message) && message@
            == "missing memory export"@,
        InvokeFailure::Interrupted => error is ResourceExhausted,
        InvokeFailure::Trap(what) => error matches ToolError::WasmTrap(message) && message@
            == what@,
        InvokeFailure::InvalidOutput => error matches ToolError::ExecutionFailed(message)
            && message@ == "invalid output"@,
        InvokeFailure::Dropped => error matches ToolError::ExecutionFailed(message) && message@
            == "wasm execution cancelled"@,
    }
}

/// What a failure is reported as.
pub fn failure_error(failure: InvokeFailure) -> (r: ToolError)
    ensures
        reports(failure, r),
{
    match failure {
        InvokeFailure::Setup(what) => ToolError::ExecutionFailed(what),
        InvokeFailure::MissingExport(name) => {
            ToolError::WasmTrap(join2("missing required export: ", name.as_str()))
        },
        InvokeFailure::MissingMemory => ToolError::WasmTrap("missing memory export".to_owned()),
        InvokeFailure::Interrupted => ToolError::ResourceExhausted,
        InvokeFailure::Trap(what) => ToolError::WasmTrap(what),
        InvokeFailure::InvalidOutput => ToolError::ExecutionFailed("invalid output".to_owned()),
        InvokeFailure::Dropped => ToolError::ExecutionFailed(
            "wasm execution cancelled".to_owned(),
        ),
    }
}

/// What the caller of a tool is told.
pub fn invoke_result(outcome: Result<ToolOutput, InvokeFailure>) -> (r: Result<
    ToolOutput,
    ToolError,
>)
    ensures
        match outcome {
            Ok(output) => r == Ok::<ToolOutput, ToolError>(output),
            Err(failure) => r matches Err(error) && reports(failure, error),
        },
{
    match outcome {
        Ok(output) => Ok(output),
        Err(failure) => Err(failure_error(failure)),
    }
}

/// Where in the module's memory its result lies: the upper half of the returned
/// word is the address, the lower half the length, both unsigned.
pub open spec fn result_word(address: nat, len: nat) -> int {
    let word = address * 0x1_0000_0000 + len;
    if word <= i64::MAX {
        word as int
    } else {
        word - 0x1_0000_0000_0000_0000
    }
}

/// Takes the word that a module returns apart into address and length.
pub fn unpack_result(word: i64) -> (r: (u32, u32))
    ensures
        word == result_word(r.0 as nat, r.1 as nat),
{
    let bits: u64 = word as u64;
    let address: u64 = bits / 0x1_0000_0000;
    let len: u64 = bits % 0x1_0000_0000;
    proof {
        assert(bits == (if word >= 0 {
            word as int
        } else {
            word + 0x1_0000_0000_0000_0000
        })) by {
            assert(word >= 0 ==> (word as u64) as int == word) by (bit_vector);
            assert(word < 0 ==> (word as u64) as int == word + 0x1_0000_0000_0000_0000)
                by (bit_vector);
        }
        assert(bits == address * 0x1_0000_0000 + len);
    }
    (address as u32, len as u32)
}

/// Address and length are determined by the word.
pub proof fn law_result_word_is_unambiguous(a: u32, b: u32, c: u32, d: u32)
    requires
        result_word(a as nat, b as nat) == result_word(c as nat, d as nat),
    ensures
        a == c,
        b == d,
{
}

/// The word that a module returns, read as an unsigned number, is the address in its
/// upper and the length in its lower half.
pub proof fn law_result_word_holds_address_and_length(word: i64, address: u32, len: u32)
    requires
        word == result_word(address as nat, len as nat),
    ensures
        word >= 0 ==> word == address * 0x1_0000_0000 + len,
        word < 0 ==> word + 0x1_0000_0000_0000_0000 == address * 0x1_0000_0000 + len,
{
}

/// A module that ran too long exhausted its resources; one that trapped, or lacks what
/// it must have, is broken for good; any other failure is worth another attempt. What
/// is known of a failure is told.
pub proof fn law_failures_are_told_apart(failure: InvokeFailure, error: ToolError)
    requires
        reports(failure, error),
    ensures
        error is ResourceExhausted <==> failure is Interrupted,
        error.class() is Overload <==> failure is Interrupted,
        error.class() is Permanent <==> failure is Trap || failure is MissingExport
            || failure is MissingMemory,
        error.class() is Transient <==> failure is Setup || failure is InvalidOutput
            || failure is Dropped,
        failure matches InvokeFailure::Trap(what) ==> (error matches ToolError::WasmTrap(told)
            && told@ == what@),
        failure matches InvokeFailure::Setup(what) ==> (
        error matches ToolError::ExecutionFailed(told) && told@ == what@),
        failure matches InvokeFailure::MissingExport(name) ==> (
        error matches ToolError::WasmTrap(told) && told@.len() >= name@.len() && told@.skip(
            told@.len() - name@.len(),
        ) == name@),
{
    if let InvokeFailure::MissingExport(name) = failure {
        let told = "missing required export: "@ + name@;
        assert(told.skip(told.len() - name@.len()) =~= name@);
    }
}

} // verus!
