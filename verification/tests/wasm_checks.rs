use nano_core::wasm::engine::{
    compute_hash, validate_wasm_bytes, WasmCompileError, WasmValidationError,
    MODULE_SIZE_BYTES_MAX,
};
use nano_core::wasm::error::WasmError;
use nano_core::wasm::js_api::wasm_cache_polyfill;
use nano_core::wasm::loader::WasmLoader;

fn minimal_wasm() -> Vec<u8> {
    vec![0x00, 0x61, 0x73, 0x6d, 0x01, 0x00, 0x00, 0x00]
}

fn add_wasm() -> Vec<u8> {
    vec![
        0x00, 0x61, 0x73, 0x6d, 0x01, 0x00, 0x00, 0x00, 0x01, 0x07, 0x01, 0x60, 0x02, 0x7f, 0x7f,
        0x01, 0x7f, 0x03, 0x02, 0x01, 0x00, 0x07, 0x08, 0x01, 0x03, 0x61, 0x64, 0x64, 0x00, 0x00,
        0x0a, 0x09, 0x01, 0x07, 0x00, 0x20, 0x00, 0x20, 0x01, 0x6a, 0x0b,
    ]
}

#[test]
fn engine_test_validate_valid_wasm() {
    let wasm = minimal_wasm();
    assert!(validate_wasm_bytes(&wasm).is_ok());

    let add = add_wasm();
    assert!(validate_wasm_bytes(&add).is_ok());
}

#[test]
fn test_validate_invalid_magic() {
    let invalid = b"wasm\x01\x00\x00\x00";
    assert!(validate_wasm_bytes(invalid).is_err());
}

#[test]
fn test_validate_too_small() {
    let too_small = b"\0asm";
    assert!(validate_wasm_bytes(too_small).is_err());
}

#[test]
fn validation_error_variants() {
    assert_eq!(validate_wasm_bytes(b"\0asm"), Err(WasmValidationError::TooSmall));
    assert_eq!(
        validate_wasm_bytes(b"wasm\x01\x00\x00\x00"),
        Err(WasmValidationError::InvalidMagic)
    );
    assert_eq!(
        validate_wasm_bytes(b"\0asm\x03\x01\x00\x00"),
        Err(WasmValidationError::UnsupportedVersion(259))
    );
    assert!(validate_wasm_bytes(b"\0asm\x02\x00\x00\x00").is_ok());
    let mut big = minimal_wasm();
    big.resize(MODULE_SIZE_BYTES_MAX + 1, 0);
    assert_eq!(validate_wasm_bytes(&big), Err(WasmValidationError::ModuleTooLarge));
    big.truncate(MODULE_SIZE_BYTES_MAX);
    assert!(validate_wasm_bytes(&big).is_ok());
}

#[test]
fn validation_error_messages() {
    assert_eq!(WasmValidationError::TooSmall.to_string(), "WASM file too small");
    assert_eq!(
        WasmValidationError::UnsupportedVersion(7).to_string(),
        "Unsupported WASM version: 7"
    );
    assert_eq!(
        WasmValidationError::ModuleTooLarge.to_string(),
        format!("WASM module exceeds size limit ({} bytes)", MODULE_SIZE_BYTES_MAX)
    );
    assert_eq!(WasmCompileError::CacheCorrupted.to_string(), "Cached module corrupted");
    assert_eq!(
        WasmError::ImportNotFound { module: "env".to_string(), name: "f".to_string() }.to_string(),
        "Import not found: env.f"
    );
    assert_eq!(
        WasmError::MemoryLimitExceeded { used: 3, max: 2 }.to_string(),
        "Memory limit exceeded: 3 > 2"
    );
}

#[test]
fn test_cache_hash_computation() {
    let hash1 = compute_hash(&minimal_wasm());
    let hash2 = compute_hash(&minimal_wasm());
    let hash3 = compute_hash(&add_wasm());
    assert_eq!(hash1, hash2, "Same bytes should have same hash");
    assert_ne!(hash1, hash3, "Different bytes should have different hash");
}

#[test]
fn test_hash_stability() {
    let h1 = compute_hash(&add_wasm());
    assert_eq!(h1, compute_hash(&add_wasm()));
    assert_eq!(h1.len(), 64);
}

#[test]
fn hash_is_sha256_hex() {
    assert_eq!(
        compute_hash(&minimal_wasm()),
        "93a44bbb96c751218e4c00d479e4c14358122a389acca16205b1e4d0dc5f9476"
    );
    assert_eq!(
        compute_hash(b""),
        "e3b0c44298fc1c149afbf4c8996fb92427ae41e4649b934ca495991b7852b855"
    );
}

#[test]
fn test_validation_helper() {
    let valid_wasm = b"\0asm\x01\x00\x00\x00";
    assert!(WasmLoader::validate(valid_wasm).is_ok());

    let invalid_wasm = b"invalid";
    assert!(WasmLoader::validate(invalid_wasm).is_err());
}

#[test]
fn loader_test_validate_valid_wasm() {
    let wasm_bytes = b"\0asm\x01\x00\x00\x00";
    assert!(WasmLoader::validate(wasm_bytes).is_ok());

    let wasm_v2 = b"\0asm\x02\x00\x00\x00";
    assert!(WasmLoader::validate(wasm_v2).is_ok());
}

#[test]
fn test_validate_invalid_wasm() {
    let too_small = b"\0asm";
    assert!(WasmLoader::validate(too_small).is_err());

    let wrong_magic = b"wasm\x01\x00\x00\x00";
    assert!(WasmLoader::validate(wrong_magic).is_err());

    let wrong_version = b"\0asm\xFF\x00\x00\x00";
    assert!(WasmLoader::validate(wrong_version).is_err());
}

#[test]
fn loader_messages() {
    assert_eq!(
        WasmLoader::validate(b"\0asm\xFF\x00\x00\x00"),
        Err(WasmError::ValidationError("Unsupported WASM version: 255".to_string()))
    );
    assert_eq!(
        WasmLoader::validate(b"abc"),
        Err(WasmError::ValidationError("File too small - minimum 8 bytes required".to_string()))
    );
    assert_eq!(
        WasmLoader::validate(b"wasm\x01\x00\x00\x00"),
        Err(WasmError::ValidationError("Invalid WASM magic number - expected \\0asm".to_string()))
    );
    assert_eq!(WasmLoader::from_bytes(&[1, 2, 3]), vec![1, 2, 3]);
}

#[test]
fn test_is_wasm_file() {
    assert!(WasmLoader::is_wasm_file("module.wasm"));
    assert!(WasmLoader::is_wasm_file("module.WASM"));
    assert!(WasmLoader::is_wasm_file("/path/to/module.wasm"));
    assert!(!WasmLoader::is_wasm_file("module.js"));
    assert!(!WasmLoader::is_wasm_file("module"));
}

#[test]
fn wasm_extension_edge_cases() {
    assert!(!WasmLoader::is_wasm_file(".wasm"));
    assert!(WasmLoader::is_wasm_file("a.WaSm"));
    assert!(!WasmLoader::is_wasm_file("a.wasm.js"));
    assert!(!WasmLoader::is_wasm_file("a.wasmx"));
}

#[test]
fn polyfill_embeds_limits() {
    let p = wasm_cache_polyfill(100, 200);
    assert!(p.contains("var _IMAX = 100;"));
    assert!(p.contains("var _EMAX = 200;"));
    assert!(p.contains("WebAssembly.compile = function(source) {"));
    assert!(p.starts_with("\n(function() {\n"));
    assert!(p.ends_with("})();\n"));
}

#[test]
fn test_hash_cross_process_stable() {
    let minimal = minimal_wasm();
    let hash = compute_hash(&minimal);
    assert_eq!(hash.len(), 64, "SHA-256 hash must be 64 hex chars");
    assert_eq!(hash, compute_hash(&minimal));
}
