//! The JavaScript polyfill that caches compiled WASM modules and enforces
//! import and export count limits.
use vstd::prelude::*;
use crate::text::{push_decimal, push_str};

verus! {

/// The polyfill text before the import limit.
pub open spec fn polyfill_head() -> Seq<char> {
    "\n(function() {\n    var _wc = new Map();\n    var _oc = WebAssembly.compile;\n    var _oi = WebAssembly.instantiate;\n    var _IMAX = "@
}

/// The polyfill text between the import and export limits.
pub open spec fn polyfill_mid() -> Seq<char> {
    ";\n    var _EMAX = "@
}

/// The polyfill text after the export limit.
pub open spec fn polyfill_tail() -> Seq<char> {
    ";\n\n    function _h(src) {\n        var u8 = ArrayBuffer.isView(src)\n            ? new Uint8Array(src.buffer, src.byteOffset, src.byteLength)\n            : new Uint8Array(src);\n        var h = 2166136261;\n        for (var i = 0; i < u8.length; i++) {\n            h = (Math.imul(h ^ u8[i], 16777619)) >>> 0;\n        }\n        return h.toString(16) + ':' + u8.length;\n    }\n\n    function _isBytes(s) {\n        return s instanceof ArrayBuffer || ArrayBuffer.isView(s);\n    }\n\n    function _checkLimits(m) {\n        var ic = WebAssembly.Module.imports(m).length;\n        if (ic > _IMAX) {\n            if (typeof Nano !== 'undefined' && Nano.__wasm_import_rejected) Nano.__wasm_import_rejected();\n            throw new RangeError('WASM module has ' + ic + ' imports; limit is ' + _IMAX);\n        }\n        var ec = WebAssembly.Module.exports(m).length;\n        if (ec > _EMAX) {\n            if (typeof Nano !== 'undefined' && Nano.__wasm_export_rejected) Nano.__wasm_export_rejected();\n            throw new RangeError('WASM module has ' + ec + ' exports; limit is ' + _EMAX);\n        }\n    }\n\n    WebAssembly.compile = function(source) {\n        if (!_isBytes(source)) return _oc(source);\n        var k = _h(source);\n        if (_wc.has(k)) return Promise.resolve(_wc.get(k));\n        return _oc(source).then(function(m) { _checkLimits(m); _wc.set(k, m); return m; });\n    };\n\n    WebAssembly.instantiate = function(source, imports) {\n        if (!_isBytes(source)) return _oi(source, imports);\n        var k = _h(source);\n        if (_wc.has(k)) {\n            var m = _wc.get(k);\n            return _oi(m, imports).then(function(inst) {\n                return { module: m, instance: inst };\n            });\n        }\n        return _oc(source).then(function(m) {\n            _checkLimits(m);\n            _wc.set(k, m);\n            return _oi(m, imports).then(function(inst) {\n                return { module: m, instance: inst };\n            });\n        });\n    };\n})();\n"@
}

/// The JS polyfill that wraps `WebAssembly.compile` and
/// `WebAssembly.instantiate` with a per-isolate module cache keyed by a hash
/// of the bytes, and rejects modules with more than `import_max` imports or
/// `export_max` exports.
pub fn wasm_cache_polyfill(import_max: u32, export_max: u32) -> (r: String)
    ensures
        r@ == polyfill_head() + crate::text::decimal(import_max as nat) + polyfill_mid()
            + crate::text::decimal(export_max as nat) + polyfill_tail(),
{
    let mut s = String::new();
    push_str(&mut s, "\n(function() {\n    var _wc = new Map();\n    var _oc = WebAssembly.compile;\n    var _oi = WebAssembly.instantiate;\n    var _IMAX = ");
    push_decimal(&mut s, import_max as u64);
    push_str(&mut s, ";\n    var _EMAX = ");
    push_decimal(&mut s, export_max as u64);
    push_str(&mut s, ";\n\n    function _h(src) {\n        var u8 = ArrayBuffer.isView(src)\n            ? new Uint8Array(src.buffer, src.byteOffset, src.byteLength)\n            : new Uint8Array(src);\n        var h = 2166136261;\n        for (var i = 0; i < u8.length; i++) {\n            h = (Math.imul(h ^ u8[i], 16777619)) >>> 0;\n        }\n        return h.toString(16) + ':' + u8.length;\n    }\n\n    function _isBytes(s) {\n        return s instanceof ArrayBuffer || ArrayBuffer.isView(s);\n    }\n\n    function _checkLimits(m) {\n        var ic = WebAssembly.Module.imports(m).length;\n        if (ic > _IMAX) {\n            if (typeof Nano !== 'undefined' && Nano.__wasm_import_rejected) Nano.__wasm_import_rejected();\n            throw new RangeError('WASM module has ' + ic + ' imports; limit is ' + _IMAX);\n        }\n        var ec = WebAssembly.Module.exports(m).length;\n        if (ec > _EMAX) {\n            if (typeof Nano !== 'undefined' && Nano.__wasm_export_rejected) Nano.__wasm_export_rejected();\n            throw new RangeError('WASM module has ' + ec + ' exports; limit is ' + _EMAX);\n        }\n    }\n\n    WebAssembly.compile = function(source) {\n        if (!_isBytes(source)) return _oc(source);\n        var k = _h(source);\n        if (_wc.has(k)) return Promise.resolve(_wc.get(k));\n        return _oc(source).then(function(m) { _checkLimits(m); _wc.set(k, m); return m; });\n    };\n\n    WebAssembly.instantiate = function(source, imports) {\n        if (!_isBytes(source)) return _oi(source, imports);\n        var k = _h(source);\n        if (_wc.has(k)) {\n            var m = _wc.get(k);\n            return _oi(m, imports).then(function(inst) {\n                return { module: m, instance: inst };\n            });\n        }\n        return _oc(source).then(function(m) {\n            _checkLimits(m);\n            _wc.set(k, m);\n            return _oi(m, imports).then(function(inst) {\n                return { module: m, instance: inst };\n            });\n        });\n    };\n})();\n");
    s
}

} // verus!
