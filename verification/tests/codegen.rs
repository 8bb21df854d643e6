use shader_slang::codegen::{
    enum_attributes, enum_variant_name, normalize_enum_repr_lines, pascal_case_from_snake_case,
    pascal_case_lowering, prebuilt_platform, target_platform,
};

#[test]
fn pascal_case_conversion() {
    assert_eq!(pascal_case_from_snake_case("SLANG_TEXTURE_2D"), "SlangTexture2d");
    assert_eq!(pascal_case_from_snake_case("snake_case_name"), "SnakeCaseName");
    assert_eq!(pascal_case_from_snake_case("ABC"), "Abc");
    assert_eq!(pascal_case_from_snake_case(""), "");
    assert_eq!(pascal_case_from_snake_case("a__b"), "AB");
    assert_eq!(pascal_case_from_snake_case("_leading"), "Leading");
    assert_eq!(pascal_case_from_snake_case("mixed_CASE"), "MixedCASE");
}

#[test]
fn pascal_names_are_kept() {
    for name in ["AlreadyPascal", "SlangTexture2d", "X1y", "Élan"] {
        assert_eq!(pascal_case_from_snake_case(name), name);
    }
}

#[test]
fn variant_names() {
    assert_eq!(
        enum_variant_name(Some("SlangCompileTarget"), "SLANG_SPIRV").as_deref(),
        Some("Spirv")
    );
    assert_eq!(
        enum_variant_name(Some("SlangMatrixLayoutMode"), "SLANG_MATRIX_LAYOUT_ROW_MAJOR").as_deref(),
        Some("RowMajor")
    );
    assert_eq!(
        enum_variant_name(Some("SlangBindingType"), "SLANG_BINDING_TYPE_MUTABLE_TETURE").as_deref(),
        Some("MutableTeture")
    );
    assert_eq!(
        enum_variant_name(Some("SlangResourceShape"), "SLANG_TEXTURE_2D").as_deref(),
        Some("SlangTexture2d")
    );
    assert_eq!(enum_variant_name(Some("Ab"), "AB_AB_C").as_deref(), Some("C"));
    assert_eq!(enum_variant_name(None, "SLANG_SPIRV"), None);
}

#[test]
fn serde_attributes_only_on_slang_enums() {
    let attrs = enum_attributes("SlangCompileTarget", true);
    assert_eq!(
        attrs,
        vec![r#"#[cfg_attr(feature = "serde", derive(serde::Serialize, serde::Deserialize))]"#.to_string()]
    );
    assert!(enum_attributes("SlangCompileTarget", false).is_empty());
    assert!(enum_attributes("ISlangBlob", true).is_empty());
    assert!(enum_attributes("Slan", true).is_empty());
}

#[test]
fn platforms() {
    assert_eq!(target_platform("linux", "x86_64"), "linux-x86_64");
    assert_eq!(target_platform("macos", "aarch64"), "macos-aarch64");
    assert_eq!(target_platform("windows", "x86_64"), "windows-x86_64");
    assert_eq!(prebuilt_platform("windows", "x86_64"), Some("windows-x86_64"));
    assert_eq!(prebuilt_platform("linux", "aarch64"), None);
    assert_eq!(prebuilt_platform("freebsd", "x86_64"), None);
}

#[test]
fn normalizes_only_the_listed_enums() {
    let input = "#[repr(i32)]\n#[derive(Debug)]\npub enum _bindgen_ty_2 {\n    A = 1,\n}\n#[repr(i32)]\npub enum Other {\n}\n";
    let expected = "#[repr(u32)]\n#[derive(Debug)]\npub enum _bindgen_ty_2 {\n    A = 1,\n}\n#[repr(i32)]\npub enum Other {\n}\n";
    assert_eq!(normalize_enum_repr_lines(input), expected);
}

#[test]
fn normalize_window_and_line_endings() {
    // The declaration must follow within the next three lines.
    let far = "#[repr(i32)]\na\nb\nc\npub enum SlangReflectionGenericArgType {\n";
    assert_eq!(normalize_enum_repr_lines(far), far);
    let near = "#[repr(i32)]\r\na\nb\npub enum slang__bindgen_ty_1 {";
    assert_eq!(
        normalize_enum_repr_lines(near),
        "#[repr(u32)]\na\nb\npub enum slang__bindgen_ty_1 {\n"
    );
    assert_eq!(normalize_enum_repr_lines(""), "\n");
    assert_eq!(normalize_enum_repr_lines("x\n\n"), "x\n\n");
}

#[test]
fn normalize_is_stable() {
    let input = "#[repr(i32)]\npub enum _bindgen_ty_1 {\n}\n#[repr(i32)]\npub enum _bindgen_ty_3 { {\n";
    let once = normalize_enum_repr_lines(input);
    assert_eq!(normalize_enum_repr_lines(&once), once);
    assert!(!once.contains("i32"));
}

#[test]
fn pascal_conversion_by_lowering_flag() {
    assert_eq!(pascal_case_lowering("SLANG_TEXTURE_2D", true), "SlangTexture2d");
    assert_eq!(pascal_case_lowering("SLANG_TEXTURE_2D", false), "SLANGTEXTURE2D");
    assert_eq!(pascal_case_lowering("ÉCOLE_X", true), "ÉcoleX");
    assert_eq!(pascal_case_lowering("école_ab", false), "écoleAb");
}
