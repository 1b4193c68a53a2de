//! WASM module loading utilities.
use vstd::prelude::*;
use crate::text::{chars_of, push_decimal, push_str};
use crate::wasm::engine::{has_magic, read_version, version_field, wasm_magic};
use crate::wasm::error::WasmError;

verus! {

/// Loader for WASM modules.
pub struct WasmLoader;

/// The message for a module that fails the basic checks, if it does:
/// fewer than eight bytes, a wrong magic number, or a version other than 1
/// and 2.
pub open spec fn loader_problem(b: Seq<u8>) -> Option<Seq<char>> {
    if b.len() < 8 {
        Some("File too small - minimum 8 bytes required"@)
    } else if b.subrange(0, 4) != wasm_magic() {
        Some("Invalid WASM magic number - expected \\0asm"@)
    } else if version_field(b) != 1 && version_field(b) != 2 {
        Some("Unsupported WASM version: "@ + crate::text::decimal(version_field(b) as nat))
    } else {
        None
    }
}

/// What `std::path::Path::extension` gives for a path: the part of its final
/// component after the last `.`, if there is one.
pub uninterp spec fn path_extension(path: Seq<char>) -> Option<Seq<char>>;

/// `Path::new(path).extension()`, as a string. Its documentation: the
/// extension of the file name, without the leading dot; none when there is
/// no file name, no embedded `.`, or only a leading `.`.
#[verifier::external_body]
pub(crate) fn extension_of(path: &str) -> (r: Option<String>)
    ensures
        r is Some <==> path_extension(path@) is Some,
        r is Some ==> r->0@ == path_extension(path@)->0,
        r is Some ==> !r->0@.contains('.'),
{
    std::path::Path::new(path).extension().and_then(|e| e.to_str()).map(|e| e.to_owned())
}

/// Whether two strings are equal up to ASCII letter case.
pub open spec fn eq_ignore_ascii_case(a: Seq<char>, b: Seq<char>) -> bool {
    a.len() == b.len() && forall|i: int|
        0 <= i < a.len() ==> crate::text::ascii_lower_char(a[i])
            == crate::text::ascii_lower_char(b[i])
}

fn lower_char(c: char) -> (r: char)
    ensures
        r == crate::text::ascii_lower_char(c),
{
    if 'A' <= c && c <= 'Z' {
        ((c as u32) + 32) as u8 as char
    } else {
        c
    }
}

fn equals_ignoring_case(a: &str, b: &str) -> (r: bool)
    ensures
        r == eq_ignore_ascii_case(a@, b@),
{
    let x = chars_of(a);
    let y = chars_of(b);
    if x.len() != y.len() {
        return false;
    }
    let mut i: usize = 0;
    while i < x.len()
        invariant
            i <= x.len(),
            x.len() == y.len(),
            x@ == a@,
            y@ == b@,
            forall|k: int|
                0 <= k < i ==> crate::text::ascii_lower_char(x@[k])
                    == crate::text::ascii_lower_char(y@[k]),
        decreases x.len() - i,
    {
        if lower_char(x[i]) != lower_char(y[i]) {
            return false;
        }
        i = i + 1;
    }
    true
}

impl WasmLoader {
    /// The module bytes, copied (for inline or embedded modules).
    pub fn from_bytes(bytes: &[u8]) -> (r: Vec<u8>)
        ensures
            r@ == bytes@,
    {
        vstd::slice::slice_to_vec(bytes)
    }

    /// Validate a module's magic number and version without compiling
    /// (see `loader_problem`).
    pub fn validate(bytes: &[u8]) -> (r: Result<(), WasmError>)
        ensures
            match loader_problem(bytes@) {
                None => r is Ok,
                Some(msg) => r matches Err(WasmError::ValidationError(m)) && m@ == msg,
            },
    {
        if bytes.len() < 8 {
            return Err(WasmError::ValidationError("File too small - minimum 8 bytes required".to_owned()));
        }
        if !has_magic(bytes) {
            return Err(WasmError::ValidationError("Invalid WASM magic number - expected \\0asm".to_owned()));
        }
        let version = read_version(bytes);
        if version != 1 && version != 2 {
            let mut m = String::new();
            push_str(&mut m, "Unsupported WASM version: ");
            push_decimal(&mut m, version as u64);
            return Err(WasmError::ValidationError(m));
        }
        Ok(())
    }

    /// Whether a path names a WASM module: its extension is `wasm` in any
    /// ASCII letter case.
    pub fn is_wasm_file(path: &str) -> (r: bool)
        ensures
            r == (path_extension(path@) is Some && eq_ignore_ascii_case(
                path_extension(path@)->0,
                "wasm"@,
            )),
    {
        match extension_of(path) {
            Some(ext) => equals_ignoring_case(ext.as_str(), "wasm"),
            None => false,
        }
    }
}

} // verus!
