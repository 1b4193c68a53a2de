//! WebAssembly byte validation, module hashing and the JS-side cache
//! polyfill.
pub mod engine;
pub mod error;
pub mod js_api;
pub mod loader;
pub mod sliver;

pub use error::WasmError;
pub use loader::WasmLoader;
