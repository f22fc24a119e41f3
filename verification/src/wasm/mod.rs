//! WASM tools: manifests, limits, and what an invocation gives back.

pub mod limits;
pub mod manifest;
pub mod tool;

use vstd::prelude::*;

use crate::error::ToolError;
use crate::text::join2;
use crate::text::join3;

verus! {

/// Errors while initializing the WASM runtime or discovering WASM tools.
#[derive(Debug)]
pub enum WasmError {
    /// Failed to initialize the engine or worker pool.
    Initialization(String),
    /// Failed to access the filesystem while scanning for tools.
    Io(String),
    /// Failed to parse the tool manifest TOML.
    ManifestParse(String),
    /// The manifest failed semantic validation.
    InvalidManifest(String),
    /// The manifest points to a missing `.wasm` binary.
    MissingBinary {
        /// Path to the missing `.wasm` binary.
        wasm_path: String,
        /// Path to the manifest that referenced it.
        manifest_path: String,
    },
    /// Failed to compile a `.wasm` module.
    Compilation(String),
    /// Failed to register a discovered tool in the runtime registry.
    Registry(ToolError),
}

impl WasmError {
    /// The message of this error.
    pub open spec fn text(&self) -> Seq<char> {
        match self {
            WasmError::Initialization(what) => "failed to initialize wasm runtime: "@ + what@,
            WasmError::Io(what) => what@,
            WasmError::ManifestParse(what) => "invalid wasm manifest: "@ + what@,
            WasmError::InvalidManifest(what) => "invalid wasm manifest: "@ + what@,
            WasmError::MissingBinary { wasm_path, manifest_path } => "WASM binary not found: "@
                + wasm_path@ + " (referenced by "@ + manifest_path@ + ")"@,
            WasmError::Compilation(what) => "failed to compile wasm module: "@ + what@,
            WasmError::Registry(inner) => inner.text(),
        }
    }

    /// The message of this error.
    pub fn to_string(&self) -> (r: String)
        ensures
            r@ == self.text(),
    {
        match self {
            WasmError::Initialization(what) => join2(
                "failed to initialize wasm runtime: ",
                what.as_str(),
            ),
            WasmError::Io(what) => what.clone(),
            WasmError::ManifestParse(what) => join2("invalid wasm manifest: ", what.as_str()),
            WasmError::InvalidManifest(what) => join2("invalid wasm manifest: ", what.as_str()),
            WasmError::MissingBinary { wasm_path, manifest_path } => {
                let mut text = join3(
                    "WASM binary not found: ",
                    wasm_path.as_str(),
                    " (referenced by ",
                );
                text.append(manifest_path.as_str());
                text.append(")");
                text
            },
            WasmError::Compilation(what) => join2("failed to compile wasm module: ", what.as_str()),
            WasmError::Registry(inner) => inner.to_string(),
        }
    }
}

/// What a module that does not compile is reported as: the message names its file.
pub fn compilation_failed(wasm_path: &str, what: &str) -> (r: WasmError)
    ensures
        r matches WasmError::Compilation(message) && message@ == wasm_path@ + ": "@ + what@,
{
    WasmError::Compilation(join3(wasm_path, ": ", what))
}

} // verus!
