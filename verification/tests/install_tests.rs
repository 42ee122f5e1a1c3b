use fae::cli::{parse_cli, CliCommand};
use fae::config::{add_dependency, require_main, FaeConfig};
use fae::errors::FaeError;
use fae::install::{build_install_command, plan_install_sweep, select_install_template};
use fae::lock::{effective_lock, mark_installed, needs_install, FaeLock};

fn install_config() -> FaeConfig {
    FaeConfig {
        main: None,
        args: None,
        scripts: None,
        language: None,
        append_output_for_consecutive_runs: None,
        send_output_to_file: None,
        shell: None,
        external_dependencies: None,
        installation_command_version: Some("pip install cosy.pkg==cosy.version".to_string()),
        installation_command_latest: Some("pip install cosy.pkg".to_string()),
    }
}

#[test]
fn latest_sentinel_selects_latest_template() {
    let config = install_config();
    assert_eq!(select_install_template(&config, "@latest").unwrap(), "pip install cosy.pkg");
}

#[test]
fn pinned_version_selects_version_template() {
    let config = install_config();
    assert_eq!(
        select_install_template(&config, "2.0.0").unwrap(),
        "pip install cosy.pkg==cosy.version"
    );
}

#[test]
fn missing_latest_template_is_fatal_naming_its_key() {
    let mut config = install_config();
    config.installation_command_latest = None;
    let err = select_install_template(&config, "@latest").unwrap_err();
    assert_eq!(err, FaeError::MissingRequiredField("installationCommandLatest".to_string()));
    assert_eq!(err.message(), "installationCommandLatest is not set in fae.config.json file");
}

#[test]
fn missing_version_template_is_fatal_naming_its_key() {
    let mut config = install_config();
    config.installation_command_version = None;
    let err = select_install_template(&config, "1.2.3").unwrap_err();
    assert_eq!(err, FaeError::MissingRequiredField("installationCommandVersion".to_string()));
}

#[test]
fn install_round_trip_records_and_substitutes_verbatim() {
    let config = install_config();
    let mut deps: Vec<(String, String)> = Vec::new();
    add_dependency(&mut deps, "mypkg", "2.0.0");
    assert_eq!(deps, vec![("mypkg".to_string(), "2.0.0".to_string())]);
    let command = build_install_command(&config, "mypkg", "2.0.0").unwrap();
    assert_eq!(command.executable, "cmd");
    assert_eq!(
        command.args,
        vec!["pip".to_string(), "install".to_string(), "mypkg==2.0.0".to_string()]
    );
}

#[test]
fn add_dependency_overwrites_and_keeps_others() {
    let mut deps = vec![
        ("left".to_string(), "1.0".to_string()),
        ("mypkg".to_string(), "1.0.0".to_string()),
        ("right".to_string(), "3.0".to_string()),
    ];
    add_dependency(&mut deps, "mypkg", "2.0.0");
    assert_eq!(
        deps,
        vec![
            ("left".to_string(), "1.0".to_string()),
            ("mypkg".to_string(), "2.0.0".to_string()),
            ("right".to_string(), "3.0".to_string()),
        ]
    );
}

#[test]
fn latest_install_command_substitutes_package_only() {
    let config = install_config();
    let command = build_install_command(&config, "mypkg", "@latest").unwrap();
    assert_eq!(command.args, vec!["pip".to_string(), "install".to_string(), "mypkg".to_string()]);
}

#[test]
fn install_command_with_unknown_shell_is_fatal() {
    let mut config = install_config();
    config.shell = Some("fish".to_string());
    let err = build_install_command(&config, "mypkg", "@latest").unwrap_err();
    assert_eq!(err, FaeError::UnsupportedShell("fish".to_string()));
}

#[test]
fn sweep_plans_one_command_per_dependency() {
    let mut config = install_config();
    config.external_dependencies = Some(vec![
        ("alpha".to_string(), "@latest".to_string()),
        ("beta".to_string(), "0.3".to_string()),
    ]);
    let commands = plan_install_sweep(&config).unwrap();
    assert_eq!(commands.len(), 2);
    assert_eq!(
        commands[0].args,
        vec!["pip".to_string(), "install".to_string(), "alpha".to_string()]
    );
    assert_eq!(
        commands[1].args,
        vec!["pip".to_string(), "install".to_string(), "beta==0.3".to_string()]
    );
}

#[test]
fn sweep_with_no_dependencies_plans_nothing() {
    let config = install_config();
    let commands = plan_install_sweep(&config).unwrap();
    assert!(commands.is_empty());
}

#[test]
fn sweep_stops_at_first_missing_template() {
    let mut config = install_config();
    config.installation_command_version = None;
    config.external_dependencies = Some(vec![
        ("alpha".to_string(), "@latest".to_string()),
        ("beta".to_string(), "0.3".to_string()),
    ]);
    let err = plan_install_sweep(&config).unwrap_err();
    assert_eq!(err, FaeError::MissingRequiredField("installationCommandVersion".to_string()));
}

#[test]
fn absent_lock_file_means_pending_install() {
    let lock = effective_lock(None);
    assert_eq!(lock.first_run, Some(true));
    assert_eq!(needs_install(&lock).unwrap(), true);
}

#[test]
fn marked_lock_never_installs_again() {
    let mut lock = effective_lock(None);
    mark_installed(&mut lock);
    assert_eq!(lock.first_run, Some(false));
    assert_eq!(needs_install(&lock).unwrap(), false);
}

#[test]
fn explicit_false_lock_skips_install() {
    let lock = effective_lock(Some(FaeLock { first_run: Some(false) }));
    assert_eq!(needs_install(&lock).unwrap(), false);
}

#[test]
fn lock_without_first_run_is_malformed() {
    let lock = FaeLock { first_run: None };
    let err = needs_install(&lock).unwrap_err();
    assert_eq!(err, FaeError::MalformedLock);
    assert_eq!(err.message(), "Could not read fae-lock.json. It may be malformed.");
}

fn argv(parts: &[&str]) -> Vec<String> {
    parts.iter().map(|p| p.to_string()).collect()
}

#[test]
fn parse_cli_recognizes_subcommands() {
    assert!(matches!(parse_cli(&argv(&["fae", "start"])).unwrap(), CliCommand::Start));
    assert!(matches!(parse_cli(&argv(&["fae", "install-deps"])).unwrap(), CliCommand::InstallDeps));
}

#[test]
fn parse_cli_install_takes_package_and_version() {
    match parse_cli(&argv(&["fae", "install", "mypkg", "2.0.0"])).unwrap() {
        CliCommand::Install { package, version } => {
            assert_eq!(package, "mypkg");
            assert_eq!(version, "2.0.0");
        },
        other => panic!("unexpected parse: {other:?}"),
    }
}

#[test]
fn parse_cli_install_defaults_to_latest_sentinel() {
    match parse_cli(&argv(&["fae", "install", "mypkg"])).unwrap() {
        CliCommand::Install { package, version } => {
            assert_eq!(package, "mypkg");
            assert_eq!(version, "@latest");
        },
        other => panic!("unexpected parse: {other:?}"),
    }
}

#[test]
fn parse_cli_rejects_unknown_and_missing() {
    assert_eq!(
        parse_cli(&argv(&["fae", "frobnicate"])).unwrap_err(),
        FaeError::InvalidCommand("frobnicate".to_string())
    );
    assert_eq!(
        parse_cli(&argv(&["fae"])).unwrap_err(),
        FaeError::InvalidCommand("command".to_string())
    );
    assert_eq!(
        parse_cli(&argv(&["fae", "install"])).unwrap_err(),
        FaeError::InvalidCommand("package".to_string())
    );
}

#[test]
fn manifest_errors_have_their_messages() {
    assert_eq!(
        FaeError::MissingManifest.message(),
        "There exists no fae.config.json file in this directory."
    );
    assert_eq!(
        FaeError::MalformedManifest.message(),
        "Could not read fae.config.json. It may be malformed."
    );
    let mut config = install_config();
    config.main = None;
    assert_eq!(
        require_main(&config).unwrap_err(),
        FaeError::MissingRequiredField("main".to_string())
    );
}
