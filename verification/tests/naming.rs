use logos_scaffold::naming::{to_cargo_crate_name, to_plugin_name, to_project_title};

#[test]
fn simple_name_is_lowercased() {
    assert_eq!(to_cargo_crate_name("MyApp"), "myapp");
}

#[test]
fn spaces_become_dashes() {
    assert_eq!(to_cargo_crate_name("my app"), "my-app");
}

#[test]
fn special_chars_become_single_dash() {
    assert_eq!(to_cargo_crate_name("my--app"), "my-app");
    assert_eq!(to_cargo_crate_name("my___app"), "my-app");
}

#[test]
fn leading_and_trailing_dashes_are_trimmed() {
    assert_eq!(to_cargo_crate_name("--myapp--"), "myapp");
    assert_eq!(to_cargo_crate_name("_myapp_"), "myapp");
}

#[test]
fn empty_string_returns_default() {
    assert_eq!(to_cargo_crate_name(""), "program_deployment");
}

#[test]
fn only_special_chars_returns_default() {
    assert_eq!(to_cargo_crate_name("---"), "program_deployment");
    assert_eq!(to_cargo_crate_name("!!!"), "program_deployment");
}

#[test]
fn alphanumeric_preserved() {
    assert_eq!(to_cargo_crate_name("my-app-123"), "my-app-123");
}

#[test]
fn unicode_becomes_dash() {
    assert_eq!(to_cargo_crate_name("héllo"), "h-llo");
}

#[test]
fn plugin_name_uses_underscores() {
    assert_eq!(to_plugin_name("Hello World"), "hello_world");
}

#[test]
fn plugin_name_collapses_and_trims_separators() {
    assert_eq!(to_plugin_name("  My--Cool   Plugin!! "), "my_cool_plugin");
    assert_eq!(to_plugin_name("__"), "basecamp_app");
    assert_eq!(to_plugin_name(""), "basecamp_app");
}

#[test]
fn crate_name_of_crate_name_is_unchanged() {
    let once = to_cargo_crate_name("  Weird__Name 42 ");
    assert_eq!(once, "weird-name-42");
    assert_eq!(to_cargo_crate_name(&once), once);
}

#[test]
fn crate_name_fallback_is_not_a_fixed_point() {
    assert_eq!(to_cargo_crate_name("program_deployment"), "program-deployment");
}

#[test]
fn plugin_name_of_plugin_name_is_unchanged() {
    for input in ["Hello World", "", "x-Y-z", "basecamp_app", "日本"] {
        let once = to_plugin_name(input);
        assert_eq!(to_plugin_name(&once), once);
    }
}

#[test]
fn crate_names_only_use_allowed_characters() {
    for input in ["A b C", "--x--", "ü-ä-ö", "a1!b2?c3", "   "] {
        let name = to_cargo_crate_name(input);
        assert!(!name.is_empty());
        if name != "program_deployment" {
            assert!(name.chars().all(|c| c.is_ascii_lowercase() || c.is_ascii_digit() || c == '-'));
            assert!(!name.starts_with('-') && !name.ends_with('-'));
            assert!(!name.contains("--"));
        }
    }
}

#[test]
fn project_title_capitalises_words() {
    assert_eq!(to_project_title("hello world"), "Hello World");
    assert_eq!(to_project_title("my-cool_APP"), "My Cool App");
    assert_eq!(to_project_title("  x  "), "X");
    assert_eq!(to_project_title("a1b2"), "A1b2");
}

#[test]
fn project_title_default_when_no_words() {
    assert_eq!(to_project_title(""), "Basecamp App");
    assert_eq!(to_project_title("--- !!"), "Basecamp App");
    assert_eq!(to_project_title("éé"), "Basecamp App");
}

#[test]
fn plugin_name_is_crate_name_with_underscores() {
    for input in ["a--b", "--", "program deployment", "Hello World", "x_y-z", ""] {
        let crate_name = to_cargo_crate_name(input);
        let expected = if crate_name == "program_deployment" {
            "basecamp_app".to_string()
        } else {
            crate_name.replace('-', "_")
        };
        assert_eq!(to_plugin_name(input), expected, "{input}");
    }
    assert_eq!(to_plugin_name("program deployment"), "program_deployment");
}
