use release_healthcheck::manifest::{strip_version_chars, update_cargo_toml_version};

#[test]
fn rewrites_version_in_package_section() {
    let content = "[package]\nname = \"demo\"\nversion = \"0.1.0\"\nedition = \"2021\"\n";
    let out = update_cargo_toml_version(content, "v1.2.3");
    assert_eq!(
        out,
        "[package]\nname = \"demo\"\nversion = \"1.2.3\"\nedition = \"2021\"\n"
    );
}

#[test]
fn strips_every_v_character() {
    assert_eq!(strip_version_chars("v1.2.3"), "1.2.3");
    assert_eq!(strip_version_chars("vav1"), "a1");
    assert_eq!(strip_version_chars("1.2.3"), "1.2.3");
    assert_eq!(strip_version_chars(""), "");
}

#[test]
fn written_value_has_every_v_removed() {
    let content = "[package]\nversion = \"0.0.0\"";
    let out = update_cargo_toml_version(content, "vav1");
    assert_eq!(out, "[package]\nversion = \"a1\"");
}

#[test]
fn lines_outside_section_kept_byte_for_byte() {
    let content = "# top comment\nversion = \"9.9.9\"\n[package]\nversion = \"0.1.0\"\n\n[dependencies]\nserde = \"1\"\n";
    let out = update_cargo_toml_version(content, "v2.0.0");
    assert_eq!(
        out,
        "# top comment\nversion = \"9.9.9\"\n[package]\nversion = \"2.0.0\"\n\n[dependencies]\nserde = \"1\"\n"
    );
}

#[test]
fn only_first_version_line_is_replaced() {
    let content = "[package]\nversion = \"0.1.0\"\nversion = \"0.2.0\"\n";
    let out = update_cargo_toml_version(content, "v3");
    assert_eq!(out, "[package]\nversion = \"3\"\nversion = \"0.2.0\"\n");
}

#[test]
fn without_package_section_nothing_changes() {
    let content = "[dependencies]\nversion = \"0.1.0\"\n";
    let out = update_cargo_toml_version(content, "v1.0.0");
    assert_eq!(out, content);
}

#[test]
fn missing_trailing_newline_is_not_added() {
    let content = "[package]\nversion = \"0.1.0\"";
    let out = update_cargo_toml_version(content, "v4.5.6");
    assert_eq!(out, "[package]\nversion = \"4.5.6\"");
}

#[test]
fn empty_content_stays_empty() {
    assert_eq!(update_cargo_toml_version("", "v1.0.0"), "");
}

#[test]
fn version_prefix_decides_the_line() {
    // Any line starting with the characters `version` counts as the
    // version line, as the scan matches on the prefix alone.
    let content = "[package]\nversion.workspace = true\n";
    let out = update_cargo_toml_version(content, "v7");
    assert_eq!(out, "[package]\nversion = \"7\"\n");
}
