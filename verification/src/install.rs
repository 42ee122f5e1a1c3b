use vstd::prelude::*;
use vstd::string::StringExecFns;
use crate::cli::latest_sentinel;
use crate::compose::ResolvedCommand;
use crate::config::FaeConfig;
use crate::errors::{ErrView, FaeError};
use crate::shell::{get_shell_type, shell_executable, shell_tag_of};
use crate::strings::{replace_all, replace_spec, split_char, split_char_spec, str_eq, views_of};

verus! {

/// The placeholder in an install-command template that the package name
/// replaces.
pub open spec fn pkg_token() -> Seq<char> {
    seq!['c', 'o', 's', 'y', '.', 'p', 'k', 'g']
}

/// The placeholder in an install-command template that the version replaces.
pub open spec fn version_token() -> Seq<char> {
    seq!['c', 'o', 's', 'y', '.', 'v', 'e', 'r', 's', 'i', 'o', 'n']
}

/// Whether a version string is the sentinel that selects the latest-version
/// install template.
pub open spec fn is_latest(version: Seq<char>) -> bool {
    version == latest_sentinel()
}

/// The manifest key holding the install template that a version selects.
pub open spec fn install_template_key(version: Seq<char>) -> Seq<char> {
    if is_latest(version) {
        "installationCommandLatest"@
    } else {
        "installationCommandVersion"@
    }
}

/// The install-command template that a version selects, if the manifest
/// holds it: the latest-version template for the sentinel, the pinned-
/// version template otherwise.
pub open spec fn install_template_of(config: FaeConfig, version: Seq<char>) -> Option<Seq<char>> {
    if is_latest(version) {
        match config.installation_command_latest {
            Some(t) => Some(t@),
            None => None,
        }
    } else {
        match config.installation_command_version {
            Some(t) => Some(t@),
            None => None,
        }
    }
}

/// The first configuration fault that stops installing one dependency, if
/// any: an unknown shell tag, then a missing install template for the
/// selected mode, named by its key.
pub open spec fn install_error_of(config: FaeConfig, version: Seq<char>) -> Option<ErrView> {
    if shell_executable(shell_tag_of(config)) is None {
        Some(ErrView::UnsupportedShell(shell_tag_of(config)))
    } else if install_template_of(config, version) is None {
        Some(ErrView::MissingRequiredField(install_template_key(version)))
    } else {
        None
    }
}

/// The argument vector that installs one dependency: the selected template
/// with both placeholders substituted, split at single spaces. Packages and
/// versions containing spaces are unsupported by this splitting.
pub open spec fn install_args_spec(template: Seq<char>, package: Seq<char>, version: Seq<char>) -> Seq<
    Seq<char>,
> {
    split_char_spec(
        replace_spec(replace_spec(template, pkg_token(), package), version_token(), version),
        ' ',
    )
}

/// Selects the install-command template for a version: the sentinel selects
/// the latest-version template, anything else the pinned-version template;
/// a missing selected template is fatal, naming its key.
pub fn select_install_template(config: &FaeConfig, version: &str) -> (r: Result<String, FaeError>)
    ensures
        match install_template_of(*config, version@) {
            Some(t) => r matches Ok(s) && s@ == t,
            None => r matches Err(e) && e@ == ErrView::MissingRequiredField(
                install_template_key(version@),
            ),
        },
{
    if str_eq(version, "@latest") {
        match &config.installation_command_latest {
            Some(t) => Ok(t.clone()),
            None => Err(
                FaeError::MissingRequiredField(String::from_str("installationCommandLatest")),
            ),
        }
    } else {
        match &config.installation_command_version {
            Some(t) => Ok(t.clone()),
            None => Err(
                FaeError::MissingRequiredField(String::from_str("installationCommandVersion")),
            ),
        }
    }
}

/// Builds the process invocation that installs one dependency: the shell
/// executable, and the selected template with the package and version
/// placeholders substituted verbatim, split into arguments at spaces.
pub fn build_install_command(config: &FaeConfig, package: &str, version: &str) -> (r: Result<
    ResolvedCommand,
    FaeError,
>)
    ensures
        match install_error_of(*config, version@) {
            Some(ev) => r matches Err(e) && e@ == ev,
            None => r matches Ok(c) && c.executable@ == shell_executable(shell_tag_of(*config))->0
                && views_of(c.args@) == install_args_spec(
                install_template_of(*config, version@)->0,
                package@,
                version@,
            ),
        },
{
    let shell = match get_shell_type(config) {
        Ok(s) => s,
        Err(e) => {
            return Err(e);
        },
    };
    let template = match select_install_template(config, version) {
        Ok(t) => t,
        Err(e) => {
            return Err(e);
        },
    };
    proof {
        reveal_strlit("cosy.pkg");
        reveal_strlit("cosy.version");
        assert("cosy.pkg"@ =~= pkg_token());
        assert("cosy.version"@ =~= version_token());
    }
    let with_package = replace_all(template.as_str(), "cosy.pkg", package);
    let substituted = replace_all(with_package.as_str(), "cosy.version", version);
    let args = split_char(substituted.as_str(), ' ');
    Ok(ResolvedCommand { executable: shell, args })
}

/// The dependency list that a sweep walks: the manifest's entries, or none.
pub open spec fn sweep_deps(config: FaeConfig) -> Seq<(String, String)> {
    match config.external_dependencies {
        Some(d) => d@,
        None => Seq::<(String, String)>::empty(),
    }
}

/// Plans the full dependency sweep: one install invocation per declared
/// dependency, in manifest order, or the first fault met while planning
/// them. Installs are independent; a fault leaves no invocation to run.
#[verifier::loop_isolation(false)]
pub fn plan_install_sweep(config: &FaeConfig) -> (r: Result<Vec<ResolvedCommand>, FaeError>)
    ensures
        r matches Ok(cmds) ==> ({
            &&& cmds@.len() == sweep_deps(*config).len()
            &&& forall|i: int|
                0 <= i < cmds@.len() ==> install_error_of(
                    *config,
                    sweep_deps(*config)[i].1@,
                ) is None
            &&& forall|i: int|
                0 <= i < cmds@.len() ==> (#[trigger] cmds@[i]).executable@ == shell_executable(
                    shell_tag_of(*config),
                )->0 && views_of(cmds@[i].args@) == install_args_spec(
                    install_template_of(*config, sweep_deps(*config)[i].1@)->0,
                    sweep_deps(*config)[i].0@,
                    sweep_deps(*config)[i].1@,
                )
        }),
        r matches Err(e) ==> (exists|i: int|
            0 <= i < sweep_deps(*config).len() && install_error_of(
                *config,
                sweep_deps(*config)[i].1@,
            ) == Some(e@) && (forall|j: int|
                0 <= j < i ==> install_error_of(*config, sweep_deps(*config)[j].1@) is None)),
{
    let mut commands: Vec<ResolvedCommand> = Vec::new();
    let deps = match &config.external_dependencies {
        Some(d) => d,
        None => {
            return Ok(commands);
        },
    };
    let len = deps.len();
    let mut i: usize = 0;
    while i < len
        invariant
            len == deps@.len(),
            i <= len,
            commands@.len() == i,
            forall|k: int|
                0 <= k < i ==> install_error_of(*config, sweep_deps(*config)[k].1@) is None,
            forall|k: int|
                0 <= k < i ==> (#[trigger] commands@[k]).executable@ == shell_executable(
                    shell_tag_of(*config),
                )->0 && views_of(commands@[k].args@) == install_args_spec(
                    install_template_of(*config, sweep_deps(*config)[k].1@)->0,
                    sweep_deps(*config)[k].0@,
                    sweep_deps(*config)[k].1@,
                ),
        decreases len - i,
    {
        let entry = &deps[i];
        match build_install_command(config, entry.0.as_str(), entry.1.as_str()) {
            Ok(c) => {
                commands.push(c);
            },
            Err(e) => {
                proof {
                    assert(install_error_of(*config, sweep_deps(*config)[i as int].1@) == Some(
                        e@,
                    ));
                }
                return Err(e);
            },
        }
        i = i + 1;
    }
    Ok(commands)
}

} // verus!
