use nano_core::v8::module::{detect_module_type, is_esm_module, transform_module_code, ModuleType};

#[test]
fn test_detect_module_type_esm() {
    assert_eq!(
        detect_module_type("export default { fetch(req) {} }"),
        ModuleType::ESM
    );
    assert_eq!(
        detect_module_type("export function fetch(req) {}"),
        ModuleType::ESM
    );
    assert_eq!(
        detect_module_type("import { x } from './mod.js';\nconst y = 1;"),
        ModuleType::ESM
    );
}

#[test]
fn test_detect_module_type_classic() {
    assert_eq!(
        detect_module_type("function fetch(req) { return { status: 200 }; }"),
        ModuleType::Script
    );
    assert_eq!(
        detect_module_type("const msg = \"please export your config\";"),
        ModuleType::Script
    );
    assert_eq!(detect_module_type("var x = 1;"), ModuleType::Script);
}

#[test]
fn test_detect_module_type_comment_skip() {
    assert_eq!(
        detect_module_type("// export function fetch() {}\nfunction fetch(req) {}"),
        ModuleType::Script
    );
}

#[test]
fn test_block_comment_same_line_does_not_swallow_export() {
    let code = "const x = { css: '/* Next.js styles */ body {}' };\nexport default {};";
    assert_eq!(detect_module_type(code), ModuleType::ESM);

    let suppressed = "/*\nexport default {}\n*/\nfunction fetch() {}";
    assert_eq!(detect_module_type(suppressed), ModuleType::Script);
}

#[test]
fn test_dynamic_import_mid_expression_not_detected() {
    assert_eq!(
        detect_module_type("const lazy = await import('./lazy');"),
        ModuleType::Script
    );
    assert_eq!(
        detect_module_type("const url = \"see import() docs\";"),
        ModuleType::Script
    );
    assert_eq!(
        detect_module_type("import('./lazy').then(m => use(m))"),
        ModuleType::ESM
    );
}

#[test]
fn test_mid_line_export_detected() {
    assert_eq!(
        detect_module_type("let counter = 0; export default { async fetch() {} }"),
        ModuleType::ESM
    );
    assert_eq!(
        detect_module_type("const x = 1; const y = 2; export default { fetch() {} }"),
        ModuleType::ESM
    );
    assert_eq!(
        detect_module_type("function fetch() { return 'hello'; }"),
        ModuleType::Script
    );
}

#[test]
fn test_each_esm_keyword_form_detected_independently() {
    for src in [
        "export const x = 1",
        "export{x}",
        "export default {}",
        "import x from 'y'",
        "import{x}from'y'",
        "import('./m')",
    ] {
        assert_eq!(
            detect_module_type(src),
            ModuleType::ESM,
            "should be ESM: {src}"
        );
    }
}

#[test]
fn test_is_esm_module_wrapper() {
    assert!(is_esm_module("export default {}"));
    assert!(!is_esm_module("function fetch() {}"));
}

#[test]
fn test_transform_module_code_lib() {
    let transformed = transform_module_code("export default { fetch: function() {} }");
    assert!(transformed.contains("__nano_handler"), "got: {transformed}");
    assert!(
        transformed.contains("__nano_user_fetch"),
        "got: {transformed}"
    );
    let classic = "function fetch() { return 1; }";
    assert_eq!(transform_module_code(classic), classic);
}

#[test]
fn block_comment_ends_before_later_export() {
    let code = "/* a\n b */ export default {}";
    // The closing line of a block comment is not scanned for markers.
    assert_eq!(detect_module_type(code), ModuleType::Script);
    let code = "/* a\n b */\nexport default {}";
    assert_eq!(detect_module_type(code), ModuleType::ESM);
}

#[test]
fn leading_whitespace_before_marker_is_ignored() {
    assert_eq!(detect_module_type("   \texport default {}"), ModuleType::ESM);
    assert_eq!(detect_module_type(""), ModuleType::Script);
    assert_eq!(detect_module_type("exporter = 1"), ModuleType::Script);
}
