//! WASM byte validation and content hashing.
use vstd::prelude::*;
use crate::text::{hex_char, hex_of, push_char, push_decimal, push_str};

verus! {

/// Largest accepted WASM module, in bytes (64 MiB).
pub const MODULE_SIZE_BYTES_MAX: usize = 67108864;

/// WASM validation errors.
#[derive(Debug, Clone, Copy, PartialEq, Eq, Structural)]
pub enum WasmValidationError {
    /// File too small to be valid WASM
    TooSmall,
    /// Invalid magic number
    InvalidMagic,
    /// Unsupported version
    UnsupportedVersion(u32),
    /// Module exceeds `MODULE_SIZE_BYTES_MAX`
    ModuleTooLarge,
}

impl WasmValidationError {
    /// The error message.
    pub fn to_string(&self) -> (r: String)
        ensures
            r@ == match self {
                WasmValidationError::TooSmall => "WASM file too small"@,
                WasmValidationError::InvalidMagic => "Invalid WASM magic number"@,
                WasmValidationError::UnsupportedVersion(v) => "Unsupported WASM version: "@
                    + crate::text::decimal(*v as nat),
                WasmValidationError::ModuleTooLarge => "WASM module exceeds size limit ("@
                    + crate::text::decimal(MODULE_SIZE_BYTES_MAX as nat) + " bytes)"@,
            },
    {
        let mut s = String::new();
        match self {
            WasmValidationError::TooSmall => push_str(&mut s, "WASM file too small"),
            WasmValidationError::InvalidMagic => push_str(&mut s, "Invalid WASM magic number"),
            WasmValidationError::UnsupportedVersion(v) => {
                push_str(&mut s, "Unsupported WASM version: ");
                push_decimal(&mut s, *v as u64);
            },
            WasmValidationError::ModuleTooLarge => {
                push_str(&mut s, "WASM module exceeds size limit (");
                push_decimal(&mut s, MODULE_SIZE_BYTES_MAX as u64);
                push_str(&mut s, " bytes)");
            },
        }
        s
    }
}

/// WASM compilation errors.
#[derive(Debug, Clone, Copy, PartialEq, Eq, Structural)]
pub enum WasmCompileError {
    /// V8 compilation failed (invalid WASM or V8 error)
    CompilationFailed,
    /// Cache entry exists but is corrupted
    CacheCorrupted,
    /// Module too large
    ModuleTooLarge,
}

impl WasmCompileError {
    /// The error message.
    pub fn to_string(&self) -> (r: String)
        ensures
            r@ == match self {
                WasmCompileError::CompilationFailed => "WASM compilation failed"@,
                WasmCompileError::CacheCorrupted => "Cached module corrupted"@,
                WasmCompileError::ModuleTooLarge => "WASM module exceeds size limit"@,
            },
    {
        let mut s = String::new();
        match self {
            WasmCompileError::CompilationFailed => push_str(&mut s, "WASM compilation failed"),
            WasmCompileError::CacheCorrupted => push_str(&mut s, "Cached module corrupted"),
            WasmCompileError::ModuleTooLarge => push_str(&mut s, "WASM module exceeds size limit"),
        }
        s
    }
}

/// The WASM magic number `\0asm`.
pub open spec fn wasm_magic() -> Seq<u8> {
    seq![0x00u8, 0x61u8, 0x73u8, 0x6du8]
}

/// The little-endian `u32` held in bytes 4 to 7 (the version field).
pub open spec fn version_field(b: Seq<u8>) -> u32
    recommends
        b.len() >= 8,
{
    (b[4] + 256 * b[5] + 65536 * b[6] + 16777216 * b[7]) as u32
}

/// The first problem found with a WASM module's bytes, if any: fewer than
/// eight bytes, more than `MODULE_SIZE_BYTES_MAX`, a wrong magic number, or
/// a version other than 1 and 2.
pub open spec fn wasm_bytes_problem(b: Seq<u8>) -> Option<WasmValidationError> {
    if b.len() < 8 {
        Some(WasmValidationError::TooSmall)
    } else if b.len() > MODULE_SIZE_BYTES_MAX {
        Some(WasmValidationError::ModuleTooLarge)
    } else if b.subrange(0, 4) != wasm_magic() {
        Some(WasmValidationError::InvalidMagic)
    } else if version_field(b) != 1 && version_field(b) != 2 {
        Some(WasmValidationError::UnsupportedVersion(version_field(b)))
    } else {
        None
    }
}

/// The version field of a module of at least eight bytes.
pub(crate) fn read_version(bytes: &[u8]) -> (v: u32)
    requires
        bytes@.len() >= 8,
    ensures
        v == version_field(bytes@),
{
    let b4 = bytes[4] as u32;
    let b5 = bytes[5] as u32;
    let b6 = bytes[6] as u32;
    let b7 = bytes[7] as u32;
    b4 + 256 * b5 + 65536 * b6 + 16777216 * b7
}

/// Whether the first four bytes are the WASM magic number.
pub(crate) fn has_magic(bytes: &[u8]) -> (r: bool)
    requires
        bytes@.len() >= 4,
    ensures
        r == (bytes@.subrange(0, 4) == wasm_magic()),
{
    let r = bytes[0] == 0x00 && bytes[1] == 0x61 && bytes[2] == 0x73 && bytes[3] == 0x6d;
    if r {
        assert(bytes@.subrange(0, 4) =~= wasm_magic());
    } else {
        assert(bytes@.subrange(0, 4) != wasm_magic()) by {
            if bytes@.subrange(0, 4) == wasm_magic() {
                assert(bytes@.subrange(0, 4)[0] == bytes@[0]);
                assert(bytes@.subrange(0, 4)[1] == bytes@[1]);
                assert(bytes@.subrange(0, 4)[2] == bytes@[2]);
                assert(bytes@.subrange(0, 4)[3] == bytes@[3]);
            }
        }
    }
    r
}

/// Validate WASM bytes without compiling: size, magic number and version
/// (see `wasm_bytes_problem`).
pub fn validate_wasm_bytes(bytes: &[u8]) -> (r: Result<(), WasmValidationError>)
    ensures
        match wasm_bytes_problem(bytes@) {
            None => r is Ok,
            Some(e) => r == Err::<(), WasmValidationError>(e),
        },
{
    if bytes.len() < 8 {
        return Err(WasmValidationError::TooSmall);
    }
    if bytes.len() > MODULE_SIZE_BYTES_MAX {
        return Err(WasmValidationError::ModuleTooLarge);
    }
    if !has_magic(bytes) {
        return Err(WasmValidationError::InvalidMagic);
    }
    let version = read_version(bytes);
    if version != 1 && version != 2 {
        return Err(WasmValidationError::UnsupportedVersion(version));
    }
    Ok(())
}

/// What `sha2::Sha256` computes for the given bytes: their 32-byte SHA-256
/// digest.
pub uninterp spec fn sha256_of(bytes: Seq<u8>) -> Seq<u8>;

/// The SHA-256 digest of `bytes`, from `sha2::Sha256` (`Digest::digest`),
/// whose output size is 32 bytes.
#[verifier::external_body]
pub(crate) fn sha256_digest(bytes: &[u8]) -> (r: Vec<u8>)
    ensures
        r@ == sha256_of(bytes@),
        r@.len() == 32,
{
    <sha2::Sha256 as sha2::Digest>::digest(bytes).to_vec()
}

/// Two lowercase hex digits for a byte, high nibble first.
pub open spec fn hex_byte(b: u8) -> Seq<char> {
    seq![hex_char((b / 16) as nat), hex_char((b % 16) as nat)]
}

/// Lowercase hex rendering of a byte string, two digits per byte.
pub open spec fn hex_bytes(s: Seq<u8>) -> Seq<char>
    decreases s.len(),
{
    if s.len() == 0 {
        Seq::empty()
    } else {
        hex_bytes(s.drop_last()) + hex_byte(s.last())
    }
}

/// A hex rendering has two digits per byte.
pub proof fn lemma_hex_bytes_len(s: Seq<u8>)
    ensures
        hex_bytes(s).len() == 2 * s.len(),
    decreases s.len(),
{
    if s.len() > 0 {
        lemma_hex_bytes_len(s.drop_last());
    }
}

/// A stable content hash of WASM bytes for cache keys: the lowercase hex
/// rendering of their SHA-256 digest (64 characters).
pub fn compute_hash(bytes: &[u8]) -> (r: String)
    ensures
        r@ == hex_bytes(sha256_of(bytes@)),
        r@.len() == 64,
{
    let digest = sha256_digest(bytes);
    let mut s = String::new();
    let mut i: usize = 0;
    while i < digest.len()
        invariant
            i <= digest.len(),
            s@ == hex_bytes(digest@.take(i as int)),
        decreases digest.len() - i,
    {
        let b = digest[i];
        push_char(&mut s, hex_of(b / 16));
        push_char(&mut s, hex_of(b % 16));
        proof {
            assert(digest@.take((i + 1) as int).drop_last() =~= digest@.take(i as int));
            assert(s@ =~= hex_bytes(digest@.take(i as int)) + hex_byte(b));
        }
        i = i + 1;
    }
    proof {
        assert(digest@.take(digest.len() as int) =~= digest@);
        lemma_hex_bytes_len(digest@);
    }
    s
}

} // verus!
