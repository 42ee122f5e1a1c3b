use fae::config::FaeConfig;
use fae::errors::FaeError;
use fae::language::resolve_language;
use fae::shell::get_shell_type;

fn config_with_shell(shell: Option<&str>) -> FaeConfig {
    FaeConfig {
        main: None,
        args: None,
        scripts: None,
        language: None,
        append_output_for_consecutive_runs: None,
        send_output_to_file: None,
        shell: shell.map(|s| s.to_string()),
        external_dependencies: None,
        installation_command_version: None,
        installation_command_latest: None,
    }
}

#[test]
fn supported_language_tags_resolve() {
    let cases = [
        ("py", "python"),
        ("python", "python"),
        ("py3", "python3"),
        ("python3", "python3"),
        ("node", "node"),
        ("nodejs", "node"),
    ];
    for (tag, expected) in cases {
        let interpreter = resolve_language(tag).unwrap();
        assert_eq!(interpreter.executable, expected);
    }
}

#[test]
fn language_tags_are_case_insensitive_and_trimmed() {
    assert_eq!(resolve_language(" PyThOn3 ").unwrap().executable, "python3");
    assert_eq!(resolve_language("\tNODE\n").unwrap().executable, "node");
    assert_eq!(resolve_language("  Py").unwrap().executable, "python");
}

#[test]
fn unsupported_language_tag_is_named() {
    let err = resolve_language("ruby").unwrap_err();
    assert_eq!(err, FaeError::UnsupportedLanguage("ruby".to_string()));
    assert_eq!(err.message(), "ruby is not supported.");
}

#[test]
fn unsupported_language_tag_is_named_normalized() {
    let err = resolve_language("  RuBy ").unwrap_err();
    assert_eq!(err, FaeError::UnsupportedLanguage("ruby".to_string()));
}

#[test]
fn supported_shell_tags_resolve() {
    let cases = [
        ("psh", "powershell"),
        ("powershell", "powershell"),
        ("cmd", "cmd"),
        ("command", "cmd"),
    ];
    for (tag, expected) in cases {
        let config = config_with_shell(Some(tag));
        assert_eq!(get_shell_type(&config).unwrap(), expected);
    }
}

#[test]
fn absent_shell_tag_defaults_to_cmd() {
    let config = config_with_shell(None);
    assert_eq!(get_shell_type(&config).unwrap(), "cmd");
}

#[test]
fn unsupported_shell_tag_is_named() {
    let config = config_with_shell(Some("bash"));
    let err = get_shell_type(&config).unwrap_err();
    assert_eq!(err, FaeError::UnsupportedShell("bash".to_string()));
    assert_eq!(err.message(), "bash is not a supported shell type!");
}

#[test]
fn shell_tags_are_not_normalized() {
    let config = config_with_shell(Some(" cmd"));
    let err = get_shell_type(&config).unwrap_err();
    assert_eq!(err, FaeError::UnsupportedShell(" cmd".to_string()));
}
