use kitsune_core::native_host_manifest::{
    extension_origin, generate_native_host_manifest_json, manifest_json, validate_extension_id,
    ManifestError, NATIVE_HOST_DESCRIPTION, NATIVE_HOST_NAME,
};
use serde_json::Value;

const VALID_ID: &str = "abcdefghijklmnopabcdefghijklmnop";

#[test]
fn rejects_extension_id_outside_chromium_alphabet() {
    let err = extension_origin("abcdefghijklmnopabcdefghijklmnqq")
        .expect_err("extension ID outside [a-p] must fail");

    assert!(err
        .to_string()
        .contains("extension ID must be exactly 32 chars in [a-p]"));
}

#[test]
fn rejects_uppercase_extension_id() {
    let err = validate_extension_id("Abcdefghijklmnopabcdefghijklmnop")
        .expect_err("uppercase chars must fail");

    assert!(err
        .to_string()
        .contains("extension ID must be exactly 32 chars in [a-p]"));
}

#[test]
fn rejects_origin_string_instead_of_extension_id() {
    let err = extension_origin("chrome-extension://abcdefghijklmnopabcdefghijklmnop/")
        .expect_err("origin string should be rejected when extension ID is expected");

    assert!(err
        .to_string()
        .contains("extension ID must be exactly 32 chars in [a-p]"));
}

#[test]
fn extension_origin_has_required_trailing_slash() {
    let origin = extension_origin(VALID_ID).expect("valid ID should build origin");

    assert_eq!(origin, format!("chrome-extension://{VALID_ID}/"));
    assert!(origin.ends_with('/'));
}

#[test]
fn validates_extension_id_exact_ap32_format() {
    validate_extension_id(VALID_ID).expect("[a-p]{32} should be accepted");
}

#[test]
fn rejects_extension_id_of_wrong_length() {
    assert!(matches!(
        validate_extension_id("abcdefghijklmnopabcdefghijklmno"),
        Err(ManifestError::InvalidExtensionId)
    ));
    assert!(matches!(
        validate_extension_id("abcdefghijklmnopabcdefghijklmnopa"),
        Err(ManifestError::InvalidExtensionId)
    ));
    assert!(matches!(validate_extension_id(""), Err(ManifestError::InvalidExtensionId)));
}

#[test]
fn rejects_extension_id_with_wide_characters() {
    // 32 characters, but not 32 bytes.
    let id = "abcdefghijklmnopabcdefghijklmno\u{e9}";
    assert_eq!(id.chars().count(), 32);
    assert!(validate_extension_id(id).is_err());
}

#[test]
fn relative_path_error_names_the_path() {
    let err = ManifestError::RelativePath(String::from("target/release/kitsune-shim"));
    assert_eq!(
        err.to_string(),
        "native host executable path must be absolute: target/release/kitsune-shim"
    );
}

#[test]
fn generates_expected_manifest_json() {
    let json = generate_native_host_manifest_json(VALID_ID, "/opt/kitsune/kitsune-shim")
        .expect("manifest should be generated");
    let parsed: Value = serde_json::from_str(&json).expect("manifest should be valid json");

    assert_eq!(parsed["name"], NATIVE_HOST_NAME);
    assert_eq!(parsed["description"], NATIVE_HOST_DESCRIPTION);
    assert_eq!(parsed["path"], "/opt/kitsune/kitsune-shim");
    assert_eq!(parsed["type"], "stdio");
    assert_eq!(
        parsed["allowed_origins"].as_array().map(|a| a.len()),
        Some(1)
    );
    assert_eq!(
        parsed["allowed_origins"][0],
        format!("chrome-extension://{VALID_ID}/")
    );
    assert!(
        parsed["allowed_origins"][0]
            .as_str()
            .is_some_and(|origin| !origin.contains('*')),
        "allowed origin must not use wildcards"
    );
}

#[test]
fn rejects_invalid_extension_id() {
    let err = generate_native_host_manifest_json("invalid-id", "/opt/kitsune/kitsune-shim")
        .expect_err("invalid extension ID must fail");

    assert!(err
        .to_string()
        .contains("extension ID must be exactly 32 chars in [a-p]"));
}

#[test]
fn linux_manifest_output_keeps_absolute_target_path() {
    let linux_path = "/usr/lib/kitsune-dm/installer/bin/kitsune-shim";
    let json = generate_native_host_manifest_json(VALID_ID, linux_path)
        .expect("linux absolute path should work");
    let parsed: Value = serde_json::from_str(&json).expect("manifest should be valid json");

    assert_eq!(parsed["path"], linux_path);
}

#[test]
fn windows_manifest_output_keeps_absolute_target_path() {
    // Whether a path is absolute depends on the platform: the answer of a
    // Windows host is handed in.
    let windows_path = r"C:\Program Files\Kitsune\kitsune-shim.exe";
    let json = manifest_json(VALID_ID, windows_path, true)
        .expect("windows absolute path should work");
    let parsed: Value = serde_json::from_str(&json).expect("manifest should be valid json");

    assert_eq!(parsed["path"], windows_path);
}

#[test]
fn rejects_relative_executable_path() {
    let err = generate_native_host_manifest_json(VALID_ID, "target/release/kitsune-shim")
        .expect_err("relative path must fail");

    assert!(err.to_string().contains("must be absolute"));
}

#[test]
fn manifest_text_is_exact() {
    let json = generate_native_host_manifest_json(VALID_ID, "/opt/kitsune/kitsune-shim")
        .expect("manifest should be generated");
    let expected = "{\n  \"name\": \"com.kitsune.dm\",\n  \"description\": \"Kitsune Download Manager Native Host\",\n  \"path\": \"/opt/kitsune/kitsune-shim\",\n  \"type\": \"stdio\",\n  \"allowed_origins\": [\n    \"chrome-extension://abcdefghijklmnopabcdefghijklmnop/\"\n  ]\n}";
    assert_eq!(json, expected);
}

#[test]
fn invalid_id_is_reported_before_a_relative_path() {
    assert!(matches!(
        generate_native_host_manifest_json("invalid-id", "relative/path"),
        Err(ManifestError::InvalidExtensionId)
    ));
    match manifest_json(VALID_ID, "relative/path", false) {
        Err(ManifestError::RelativePath(path)) => assert_eq!(path, "relative/path"),
        other => panic!("unexpected result: {:?}", other),
    }
}
