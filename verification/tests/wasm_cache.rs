use nano_core::wasm::error::WasmError;
use nano_core::wasm::sliver::{CompiledWasmModule, SliverWasmCache};

#[test]
fn test_cache_serialization() {
    let mut cache = SliverWasmCache::new();

    let module = CompiledWasmModule {
        source_hash: [0u8; 32],
        module_bytes: b"\0asm\x01\x00\x00\x00".to_vec(),
        size: 8,
        path: "test.wasm".to_string(),
    };

    cache.insert("test.wasm".to_string(), module);

    let serialized = cache.serialize();
    let restored = SliverWasmCache::deserialize(&serialized).unwrap();

    assert_eq!(restored.module_count(), 1);
    assert_eq!(restored.total_size(), 8);

    let restored_module = restored.get("test.wasm").unwrap();
    assert_eq!(restored_module.module_bytes, b"\0asm\x01\x00\x00\x00");
    assert_eq!(restored_module.size, 8);
}

#[test]
fn test_empty_cache() {
    let cache = SliverWasmCache::new();
    let serialized = cache.serialize();
    let restored = SliverWasmCache::deserialize(&serialized).unwrap();
    assert_eq!(restored.module_count(), 0);
}

#[test]
fn test_multiple_modules() {
    let mut cache = SliverWasmCache::new();

    for i in 0..3u8 {
        let module = CompiledWasmModule {
            source_hash: [i; 32],
            module_bytes: vec![i; 10],
            size: 10,
            path: format!("module{}.wasm", i),
        };
        cache.insert(format!("module{}.wasm", i), module);
    }

    let serialized = cache.serialize();
    let restored = SliverWasmCache::deserialize(&serialized).unwrap();

    assert_eq!(restored.module_count(), 3);
    assert_eq!(restored.total_size(), 30);

    let paths = restored.module_paths();
    assert!(paths.contains(&"module0.wasm".to_string()));
    assert!(paths.contains(&"module1.wasm".to_string()));
    assert!(paths.contains(&"module2.wasm".to_string()));
}

#[test]
fn test_add_module() {
    let mut cache = SliverWasmCache::new();
    cache.add_module("test.wasm", b"\0asm\x01\x00\x00\x00".to_vec());

    assert_eq!(cache.module_count(), 1);

    let module = cache.get("test.wasm").unwrap();
    assert_eq!(module.module_bytes, b"\0asm\x01\x00\x00\x00");
    assert_eq!(module.path, "test.wasm");
}

fn compile_message(r: Result<SliverWasmCache, WasmError>) -> String {
    match r {
        Err(WasmError::CompileError(m)) => m,
        Err(_) => panic!("expected a compile error"),
        Ok(_) => panic!("expected an error"),
    }
}

#[test]
fn add_module_stores_sha256_of_bytes() {
    let mut cache = SliverWasmCache::default();
    cache.add_module("abc.wasm", b"abc".to_vec());
    let module = cache.get("abc.wasm").unwrap();
    let expected: [u8; 32] = [
        0xba, 0x78, 0x16, 0xbf, 0x8f, 0x01, 0xcf, 0xea, 0x41, 0x41, 0x40, 0xde, 0x5d, 0xae, 0x22,
        0x23, 0xb0, 0x03, 0x61, 0xa3, 0x96, 0x17, 0x7a, 0x9c, 0xb4, 0x10, 0xff, 0x61, 0xf2, 0x00,
        0x15, 0xad,
    ];
    assert_eq!(module.source_hash, expected);
    assert_eq!(module.size, 3);
    assert_eq!(cache.total_size(), 3);
}

#[test]
fn serialize_exact_layout() {
    let mut cache = SliverWasmCache::new();
    cache.insert(
        "a".to_string(),
        CompiledWasmModule { source_hash: [7u8; 32], module_bytes: vec![1, 2], size: 2, path: "a".to_string() },
    );
    let bytes = cache.serialize();
    let mut expected: Vec<u8> = vec![1, 0, 0, 0, 1, 0, 0, 0, b'a'];
    expected.extend_from_slice(&[7u8; 32]);
    expected.extend_from_slice(&[2, 0, 0, 0, 1, 2]);
    assert_eq!(bytes, expected);
}

#[test]
fn round_trip_keeps_hash_and_bytes() {
    let mut cache = SliverWasmCache::new();
    cache.add_module("m.wasm", vec![9, 8, 7, 6]);
    let restored = SliverWasmCache::deserialize(&cache.serialize()).unwrap();
    let a = cache.get("m.wasm").unwrap();
    let b = restored.get("m.wasm").unwrap();
    assert_eq!(a.source_hash, b.source_hash);
    assert_eq!(a.module_bytes, b.module_bytes);
    assert_eq!(b.size, 4);
    assert_eq!(b.path, "m.wasm");
}

#[test]
fn deserialize_too_small() {
    assert_eq!(compile_message(SliverWasmCache::deserialize(&[1, 0, 0])), "Invalid WASM cache: too small");
}

#[test]
fn deserialize_truncated_fields() {
    assert_eq!(compile_message(SliverWasmCache::deserialize(&[1, 0, 0, 0, 1])), "Invalid WASM cache: truncated");
    assert_eq!(
        compile_message(SliverWasmCache::deserialize(&[1, 0, 0, 0, 5, 0, 0, 0, b'a'])),
        "Invalid WASM cache: truncated path"
    );
    assert_eq!(
        compile_message(SliverWasmCache::deserialize(&[1, 0, 0, 0, 1, 0, 0, 0, b'a', 0, 0])),
        "Invalid WASM cache: truncated hash"
    );
    let mut no_len: Vec<u8> = vec![1, 0, 0, 0, 1, 0, 0, 0, b'a'];
    no_len.extend_from_slice(&[0u8; 32]);
    no_len.extend_from_slice(&[3, 0]);
    assert_eq!(compile_message(SliverWasmCache::deserialize(&no_len)), "Invalid WASM cache: truncated length");
    let mut short_data: Vec<u8> = vec![1, 0, 0, 0, 1, 0, 0, 0, b'a'];
    short_data.extend_from_slice(&[0u8; 32]);
    short_data.extend_from_slice(&[3, 0, 0, 0, 1, 2]);
    assert_eq!(compile_message(SliverWasmCache::deserialize(&short_data)), "Invalid WASM cache: truncated data");
}

#[test]
fn deserialize_zero_count_ignores_trailing_bytes() {
    let restored = SliverWasmCache::deserialize(&[0, 0, 0, 0, 42, 42]).unwrap();
    assert_eq!(restored.module_count(), 0);
    assert_eq!(restored.total_size(), 0);
}

#[test]
fn deserialize_invalid_utf8_path_is_lossy() {
    let mut bytes: Vec<u8> = vec![1, 0, 0, 0, 1, 0, 0, 0, 0xff];
    bytes.extend_from_slice(&[0u8; 32]);
    bytes.extend_from_slice(&[0, 0, 0, 0]);
    let restored = SliverWasmCache::deserialize(&bytes).unwrap();
    let m = restored.get("\u{fffd}").unwrap();
    assert_eq!(m.path, "\u{fffd}");
    assert_eq!(m.size, 0);
}

#[test]
fn insert_replaces_module_at_same_path() {
    let mut cache = SliverWasmCache::new();
    cache.add_module("x.wasm", vec![1]);
    cache.add_module("x.wasm", vec![1, 2, 3]);
    assert_eq!(cache.module_count(), 1);
    assert_eq!(cache.total_size(), 3);
    assert_eq!(cache.module_paths(), vec!["x.wasm".to_string()]);
}

#[test]
fn round_trip_restores_any_inserted_module_under_its_key() {
    let mut cache = SliverWasmCache::new();
    cache.insert(
        "a.wasm".to_string(),
        CompiledWasmModule {
            source_hash: [7; 32],
            module_bytes: vec![1, 2, 3],
            size: 99,
            path: "elsewhere.wasm".to_string(),
        },
    );
    let restored = SliverWasmCache::deserialize(&cache.serialize()).unwrap();
    let m = restored.get("a.wasm").unwrap();
    assert_eq!(m.source_hash, [7; 32]);
    assert_eq!(m.module_bytes, vec![1, 2, 3]);
    assert_eq!(m.size, 3);
    assert_eq!(m.path, "a.wasm");
}
