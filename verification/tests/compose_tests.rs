use fae::compose::{compose_start_command, compose_start_command_now, join_path, quote};
use fae::config::FaeConfig;
use fae::errors::FaeError;

fn start_config() -> FaeConfig {
    FaeConfig {
        main: Some("app.py".to_string()),
        args: None,
        scripts: None,
        language: Some("py".to_string()),
        append_output_for_consecutive_runs: None,
        send_output_to_file: None,
        shell: None,
        external_dependencies: None,
        installation_command_version: None,
        installation_command_latest: None,
    }
}

#[test]
fn start_command_without_output_policy() {
    let config = start_config();
    let command = compose_start_command(&config, "/proj", "2024-01-02@03h04m05s").unwrap();
    assert_eq!(command.executable, "cmd");
    assert_eq!(command.args, vec!["python".to_string(), "\"/proj/app.py\"".to_string()]);
}

#[test]
fn overwrite_policy_appends_single_redirect() {
    let mut config = start_config();
    config.send_output_to_file = Some("out-@fae.time.log".to_string());
    config.append_output_for_consecutive_runs = Some(false);
    let command = compose_start_command(&config, "/proj", "2024-01-02@03h04m05s").unwrap();
    assert_eq!(
        command.args,
        vec![
            "python".to_string(),
            "\"/proj/app.py\"".to_string(),
            ">".to_string(),
            "\"/proj/out-2024-01-02@03h04m05s.log\"".to_string(),
        ]
    );
}

#[test]
fn append_policy_uses_double_redirect() {
    let mut config = start_config();
    config.send_output_to_file = Some("out-@fae.time.log".to_string());
    config.append_output_for_consecutive_runs = Some(true);
    let command = compose_start_command(&config, "/proj", "2024-01-02@03h04m05s").unwrap();
    assert_eq!(command.args[2], ">>");
    assert_eq!(command.args[3], "\"/proj/out-2024-01-02@03h04m05s.log\"");
}

#[test]
fn unset_append_flag_means_overwrite() {
    let mut config = start_config();
    config.send_output_to_file = Some("log-@fae.time.txt".to_string());
    let command = compose_start_command(&config, "/proj", "T").unwrap();
    assert_eq!(command.args[2], ">");
    assert_eq!(command.args[3], "\"/proj/log-T.txt\"");
}

fn assert_timestamp_shape(stamp: &str) {
    let bytes = stamp.as_bytes();
    assert_eq!(bytes.len(), 20, "timestamp {stamp} has unexpected length");
    let digit_positions = [0, 1, 2, 3, 5, 6, 8, 9, 11, 12, 14, 15, 17, 18];
    for p in digit_positions {
        assert!(bytes[p].is_ascii_digit(), "timestamp {stamp} not digit at {p}");
    }
    assert_eq!(bytes[4], b'-');
    assert_eq!(bytes[7], b'-');
    assert_eq!(bytes[10], b'@');
    assert_eq!(bytes[13], b'h');
    assert_eq!(bytes[16], b'm');
    assert_eq!(bytes[19], b's');
}

#[test]
fn clocked_composition_substitutes_a_real_timestamp() {
    let mut config = start_config();
    config.send_output_to_file = Some("out-@fae.time.log".to_string());
    let command = compose_start_command_now(&config, "/proj").unwrap();
    assert_eq!(command.args.len(), 4);
    assert_eq!(command.args[2], ">");
    let dest = &command.args[3];
    assert!(!dest.contains("@fae.time"), "placeholder survived in {dest}");
    let inner = dest.trim_matches('"');
    let stamp = inner
        .strip_prefix("/proj/out-")
        .and_then(|rest| rest.strip_suffix(".log"))
        .expect("destination has the template's frame");
    assert_timestamp_shape(stamp);
}

#[test]
fn missing_main_is_fatal() {
    let mut config = start_config();
    config.main = None;
    let err = compose_start_command(&config, "/proj", "T").unwrap_err();
    assert_eq!(err, FaeError::MissingRequiredField("main".to_string()));
    assert_eq!(err.message(), "main is not set in fae.config.json file");
}

#[test]
fn missing_language_is_fatal() {
    let mut config = start_config();
    config.language = None;
    let err = compose_start_command(&config, "/proj", "T").unwrap_err();
    assert_eq!(err, FaeError::MissingRequiredField("language".to_string()));
}

#[test]
fn unknown_language_is_fatal_before_shell() {
    let mut config = start_config();
    config.language = Some("ruby".to_string());
    config.shell = Some("bogus".to_string());
    let err = compose_start_command(&config, "/proj", "T").unwrap_err();
    assert_eq!(err, FaeError::UnsupportedLanguage("ruby".to_string()));
}

#[test]
fn unknown_shell_is_fatal() {
    let mut config = start_config();
    config.shell = Some("bash".to_string());
    let err = compose_start_command(&config, "/proj", "T").unwrap_err();
    assert_eq!(err, FaeError::UnsupportedShell("bash".to_string()));
}

#[test]
fn join_path_resolves_relative_paths() {
    assert_eq!(join_path("/proj", "a.py"), "/proj/a.py");
    assert_eq!(join_path("/proj/", "a.py"), "/proj/a.py");
    assert_eq!(join_path("/proj", "/abs/a.py"), "/abs/a.py");
}

#[test]
fn quote_wraps_in_double_quotes() {
    assert_eq!(quote("a b"), "\"a b\"");
    assert_eq!(quote(""), "\"\"");
}
