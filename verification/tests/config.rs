use logos_scaffold::config::{escape_toml_string, parse_config, serialize_config, unquote};
use logos_scaffold::model::{
    ConfigError, BASECAMP_RUNTIME_DEV, DEFAULT_BASECAMP_DATA_ROOT, DEFAULT_FRAMEWORK_IDL_PATH,
    DEFAULT_FRAMEWORK_IDL_SPEC, DEFAULT_FRAMEWORK_VERSION, FRAMEWORK_KIND_DEFAULT, LEZ_URL,
    PROJECT_KIND_BASECAMP_QML, PROJECT_KIND_LEZ,
};

#[test]
fn legacy_lez_config_defaults_project_kind() {
    let text = r#"
[scaffold]
version = "0.1.0"
cache_root = "/tmp/cache"

[repos.lez]
url = "https://example.com/lez.git"
source = "https://example.com/lez.git"
path = "/tmp/lez"
pin = "abc123"
"#;

    let cfg = parse_config(text).expect("parse legacy lez config");
    assert_eq!(cfg.project.kind, PROJECT_KIND_LEZ);
    assert!(cfg.lez.is_some());
    assert!(cfg.logos_module_builder.is_none());
}

#[test]
fn basecamp_config_parses_and_round_trips() {
    let text = r#"
[scaffold]
version = "0.1.0"
cache_root = "/tmp/cache"

[project]
kind = "basecamp-qml"

[repos.logos_module_builder]
url = "https://github.com/logos-co/logos-module-builder.git"
source = "/tmp/module-builder"
path = "/tmp/cache/repos/logos-module-builder/pin"
pin = "deadbeef"

[basecamp]
data_root = "/tmp/runtime/LogosBasecamp"
runtime_variant = "dev"
"#;

    let cfg = parse_config(text).expect("parse basecamp config");
    assert_eq!(cfg.project.kind, PROJECT_KIND_BASECAMP_QML);
    assert!(cfg.lez.is_none());
    assert_eq!(
        cfg.logos_module_builder
            .as_ref()
            .expect("module builder")
            .pin,
        "deadbeef"
    );
    assert_eq!(cfg.basecamp.runtime_variant, BASECAMP_RUNTIME_DEV);

    let serialized = serialize_config(&cfg);
    let reparsed = parse_config(&serialized).expect("reparse serialized config");
    assert_eq!(reparsed.project.kind, PROJECT_KIND_BASECAMP_QML);
    assert_eq!(reparsed.basecamp.data_root, "/tmp/runtime/LogosBasecamp");
    assert_eq!(reparsed.basecamp.runtime_variant, BASECAMP_RUNTIME_DEV);
}

const MINIMAL_LEZ: &str = "[scaffold]\nversion = \"0.1.0\"\ncache_root = \"/c\"\n\n[repos.lez]\nsource = \"s\"\npath = \"p\"\npin = \"x\"\n";

#[test]
fn missing_values_take_their_defaults() {
    let cfg = parse_config(MINIMAL_LEZ).expect("minimal config");
    let lez = cfg.lez.as_ref().expect("lez");
    assert_eq!(lez.url, LEZ_URL);
    assert_eq!(lez.source, "s");
    assert_eq!(cfg.wallet_home_dir, ".scaffold/wallet");
    assert_eq!(cfg.localnet.port, 3040);
    assert!(cfg.localnet.risc0_dev_mode);
    assert_eq!(cfg.framework.kind, FRAMEWORK_KIND_DEFAULT);
    assert_eq!(cfg.framework.version, DEFAULT_FRAMEWORK_VERSION);
    assert_eq!(cfg.framework.idl.spec, DEFAULT_FRAMEWORK_IDL_SPEC);
    assert_eq!(cfg.framework.idl.path, DEFAULT_FRAMEWORK_IDL_PATH);
    assert_eq!(cfg.basecamp.data_root, DEFAULT_BASECAMP_DATA_ROOT);
    assert_eq!(cfg.basecamp.runtime_variant, BASECAMP_RUNTIME_DEV);
}

#[test]
fn missing_scaffold_keys_are_refused() {
    assert_eq!(parse_config("").unwrap_err(), ConfigError::MissingScaffoldKeys);
    assert_eq!(
        parse_config("[scaffold]\nversion = \"1\"\n").unwrap_err(),
        ConfigError::MissingScaffoldKeys
    );
    assert_eq!(
        parse_config("[scaffold]\nversion = \"\"\ncache_root = \"/c\"\n").unwrap_err(),
        ConfigError::MissingScaffoldKeys
    );
}

#[test]
fn lez_project_without_lez_repo_is_refused() {
    let text = "[scaffold]\nversion = \"1\"\ncache_root = \"/c\"\n";
    assert_eq!(parse_config(text).unwrap_err(), ConfigError::MissingLezKeys);
}

#[test]
fn incomplete_lez_repo_is_refused() {
    let text = "[scaffold]\nversion = \"1\"\ncache_root = \"/c\"\n[project]\nkind = \"basecamp-qml\"\n[repos.lez]\nsource = \"s\"\n";
    assert_eq!(parse_config(text).unwrap_err(), ConfigError::MissingLezKeys);
}

#[test]
fn incomplete_module_builder_repo_is_refused() {
    let text = "[scaffold]\nversion = \"1\"\ncache_root = \"/c\"\n[project]\nkind = \"basecamp-qml\"\n[repos.logos_module_builder]\npin = \"x\"\n";
    assert_eq!(
        parse_config(text).unwrap_err(),
        ConfigError::MissingModuleBuilderKeys
    );
}

#[test]
fn legacy_lssa_section_is_read_as_lez() {
    let text = "[scaffold]\nversion = \"1\"\ncache_root = \"/c\"\n[repos.lssa]\nurl = \"u\"\nsource = \"s\"\npath = \"p\"\npin = \"x\"\n";
    let cfg = parse_config(text).expect("legacy section");
    assert_eq!(cfg.lez.expect("lez").url, "u");
}

#[test]
fn comments_blank_lines_whitespace_and_crlf_are_tolerated() {
    let text = "# header\r\n  [scaffold]  \r\n\tversion=  \"2\"\r\n cache_root =/c \r\n\r\n[localnet]\nport = +8080\nrisc0_dev_mode = 0\n[project]\nkind = other\n";
    let cfg = parse_config(text).expect("tolerant parse");
    assert_eq!(cfg.version, "2");
    assert_eq!(cfg.cache_root, "/c");
    assert_eq!(cfg.localnet.port, 8080);
    assert!(!cfg.localnet.risc0_dev_mode);
    assert_eq!(cfg.project.kind, "other");
    assert!(cfg.lez.is_none());
}

#[test]
fn invalid_port_keeps_the_default_and_later_keys_win() {
    let text = "[scaffold]\nversion = \"1\"\nversion = \"3\"\ncache_root = \"/c\"\n[project]\nkind = \"k\"\n[localnet]\nport = 70000\nrisc0_dev_mode = \"yes\"\n";
    let cfg = parse_config(text).expect("parse");
    assert_eq!(cfg.version, "3");
    assert_eq!(cfg.localnet.port, 3040);
    assert!(cfg.localnet.risc0_dev_mode);
    for bad in ["-1", "", "+", "12a", "65536"] {
        let t = format!("[scaffold]\nversion = \"1\"\ncache_root = \"/c\"\n[project]\nkind = \"k\"\n[localnet]\nport = {bad}\n");
        assert_eq!(parse_config(&t).unwrap().localnet.port, 3040, "{bad}");
    }
    let t = "[scaffold]\nversion = \"1\"\ncache_root = \"/c\"\n[project]\nkind = \"k\"\n[localnet]\nport = 00065535\n";
    assert_eq!(parse_config(t).unwrap().localnet.port, 65535);
}

#[test]
fn unknown_sections_and_keys_are_ignored() {
    let text = "[scaffold]\nversion = \"1\"\ncache_root = \"/c\"\nextra = 1\n[other]\nversion = \"9\"\n[project]\nkind = \"k\"\n";
    let cfg = parse_config(text).expect("parse");
    assert_eq!(cfg.version, "1");
}

#[test]
fn serialized_text_has_the_expected_layout() {
    let cfg = parse_config(MINIMAL_LEZ).unwrap();
    let text = serialize_config(&cfg);
    let expected = format!(
        "[scaffold]\nversion = \"0.1.0\"\ncache_root = \"/c\"\n\n[project]\nkind = \"lez\"\n\n[repos.lez]\nurl = \"{LEZ_URL}\"\nsource = \"s\"\npath = \"p\"\npin = \"x\"\n\n[wallet]\nhome_dir = \".scaffold/wallet\"\n\n[framework]\nkind = \"default\"\nversion = \"{DEFAULT_FRAMEWORK_VERSION}\"\n\n[framework.idl]\nspec = \"{DEFAULT_FRAMEWORK_IDL_SPEC}\"\npath = \"{DEFAULT_FRAMEWORK_IDL_PATH}\"\n\n[localnet]\nport = 3040\nrisc0_dev_mode = true\n\n[basecamp]\ndata_root = \"{DEFAULT_BASECAMP_DATA_ROOT}\"\nruntime_variant = \"dev\"\n"
    );
    assert_eq!(text, expected);
}

#[test]
fn round_trip_keeps_every_field() {
    let text = "[scaffold]\nversion = \"9.9\"\ncache_root = \"/cache dir\"\n[project]\nkind = \"lez\"\n[repos.lez]\nurl = \"u\"\nsource = \"s\"\npath = \"p\"\npin = \"x\"\n[repos.logos_module_builder]\nurl = \"\"\nsource = \"ms\"\npath = \"mp\"\npin = \"my\"\n[wallet]\nhome_dir = \"w\"\n[framework]\nkind = \"lez-framework\"\nversion = \"2\"\n[framework.idl]\nspec = \"sp\"\npath = \"pa\"\n[localnet]\nport = 1\nrisc0_dev_mode = false\n[basecamp]\ndata_root = \"/d\"\nruntime_variant = \"portable\"\n";
    let cfg = parse_config(text).unwrap();
    let again = parse_config(&serialize_config(&cfg)).unwrap();
    assert_eq!(serialize_config(&again), serialize_config(&cfg));
    assert_eq!(again.cache_root, "/cache dir");
    assert_eq!(again.logos_module_builder.as_ref().unwrap().url, "");
    assert_eq!(again.localnet.port, 1);
    assert!(!again.localnet.risc0_dev_mode);
    assert_eq!(again.framework.kind, "lez-framework");
}

#[test]
fn escaping_doubles_backslashes_and_escapes_quotes() {
    assert_eq!(escape_toml_string("plain"), "plain");
    assert_eq!(escape_toml_string(r#"a\b"c"#), r#"a\\b\"c"#);
    assert_eq!(escape_toml_string(""), "");
}

#[test]
fn unquote_removes_one_pair_of_quotes() {
    assert_eq!(unquote("\"x\""), "x");
    assert_eq!(unquote("\"\""), "");
    assert_eq!(unquote("\""), "\"");
    assert_eq!(unquote("\"x"), "\"x");
    assert_eq!(unquote("\"\"x\"\""), "\"x\"");
    assert_eq!(unquote("x"), "x");
}

#[test]
fn legacy_header_reads_as_lez_header() {
    let legacy = "[scaffold]\nversion = \"1\"\ncache_root = \"/c\"\n  [repos.lssa] \nurl = \"u\"\nsource = \"s\"\npath = \"p\"\npin = \"x\"\n";
    let modern = "[scaffold]\nversion = \"1\"\ncache_root = \"/c\"\n[repos.lez]\nurl = \"u\"\nsource = \"s\"\npath = \"p\"\npin = \"x\"\n";
    let a = parse_config(legacy).unwrap();
    let b = parse_config(modern).unwrap();
    assert_eq!(serialize_config(&a), serialize_config(&b));
}

#[test]
fn comments_leading_entries_and_trailing_unknown_sections_change_nothing() {
    let base = parse_config(MINIMAL_LEZ).unwrap();
    let with_noise = format!(
        "stray = 1\n# comment\n{MINIMAL_LEZ}\n   # another\n[custom.tool]\nversion = \"99\"\nsource = \"zzz\"\n[another]\npin = \"q\"\n"
    );
    let noisy = parse_config(&with_noise).unwrap();
    assert_eq!(serialize_config(&noisy), serialize_config(&base));
}
