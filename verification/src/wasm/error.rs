//! Error type for WASM operations.
use vstd::prelude::*;
use crate::text::{push_decimal, push_str};

verus! {

/// Error type for WASM operations.
#[derive(Debug, Clone, PartialEq, Eq)]
pub enum WasmError {
    CompileError(String),
    InstantiationError(String),
    ValidationError(String),
    MemoryLimitExceeded { used: u32, max: u32 },
    WasiError(String),
    ImportNotFound { module: String, name: String },
}

impl WasmError {
    /// The error message.
    pub fn to_string(&self) -> (r: String)
        ensures
            r@ == match self {
                WasmError::CompileError(e) => "Failed to compile WASM module: "@ + e@,
                WasmError::InstantiationError(e) => "Failed to instantiate WASM module: "@ + e@,
                WasmError::ValidationError(e) => "WASM module validation failed: "@ + e@,
                WasmError::MemoryLimitExceeded { used, max } => "Memory limit exceeded: "@
                    + crate::text::decimal(*used as nat) + " > "@ + crate::text::decimal(
                    *max as nat,
                ),
                WasmError::WasiError(e) => "WASI error: "@ + e@,
                WasmError::ImportNotFound { module, name } => "Import not found: "@ + module@
                    + "."@ + name@,
            },
    {
        let mut s = String::new();
        match self {
            WasmError::CompileError(e) => {
                push_str(&mut s, "Failed to compile WASM module: ");
                push_str(&mut s, e.as_str());
            },
            WasmError::InstantiationError(e) => {
                push_str(&mut s, "Failed to instantiate WASM module: ");
                push_str(&mut s, e.as_str());
            },
            WasmError::ValidationError(e) => {
                push_str(&mut s, "WASM module validation failed: ");
                push_str(&mut s, e.as_str());
            },
            WasmError::MemoryLimitExceeded { used, max } => {
                push_str(&mut s, "Memory limit exceeded: ");
                push_decimal(&mut s, *used as u64);
                push_str(&mut s, " > ");
                push_decimal(&mut s, *max as u64);
            },
            WasmError::WasiError(e) => {
                push_str(&mut s, "WASI error: ");
                push_str(&mut s, e.as_str());
            },
            WasmError::ImportNotFound { module, name } => {
                push_str(&mut s, "Import not found: ");
                push_str(&mut s, module.as_str());
                push_str(&mut s, ".");
                push_str(&mut s, name.as_str());
            },
        }
        s
    }
}

} // verus!
