use vstd::prelude::*;
use vstd::string::StringExecFns;
use crate::errors::{ErrView, FaeError};
use crate::strings::str_eq;

verus! {

/// A parsed command line: the subcommand and its arguments.
#[derive(Debug)]
pub enum CliCommand {
    /// Bootstrap dependencies if still owed, then run the entry point.
    Start,
    /// Record one dependency in the manifest and install it; an absent
    /// version selects the latest-version sentinel.
    Install { package: String, version: String },
    /// Re-run the full dependency sweep unconditionally.
    InstallDeps,
}

/// The mathematical image of a parsed command line.
#[verifier::ext_equal]
pub enum CliView {
    Start,
    Install { package: Seq<char>, version: Seq<char> },
    InstallDeps,
}

impl View for CliCommand {
    type V = CliView;

    open spec fn view(&self) -> CliView {
        match self {
            CliCommand::Start => CliView::Start,
            CliCommand::Install { package, version } => CliView::Install {
                package: package@,
                version: version@,
            },
            CliCommand::InstallDeps => CliView::InstallDeps,
        }
    }
}

/// The version sentinel that selects the latest-version install template.
pub open spec fn latest_sentinel() -> Seq<char> {
    "@latest"@
}

/// What a raw argument vector (the process name first) parses to: the
/// subcommand, or the fault that names the offending or missing piece.
pub open spec fn cli_outcome(args: Seq<String>) -> Result<CliView, ErrView> {
    if args.len() < 2 {
        Err(ErrView::InvalidCommand("command"@))
    } else if args[1]@ == "start"@ {
        Ok(CliView::Start)
    } else if args[1]@ == "install-deps"@ {
        Ok(CliView::InstallDeps)
    } else if args[1]@ == "install"@ {
        if args.len() < 3 {
            Err(ErrView::InvalidCommand("package"@))
        } else {
            Ok(
                CliView::Install {
                    package: args[2]@,
                    version: if args.len() >= 4 {
                        args[3]@
                    } else {
                        latest_sentinel()
                    },
                },
            )
        }
    } else {
        Err(ErrView::InvalidCommand(args[1]@))
    }
}

/// Parses the raw argument vector into a subcommand. An absent subcommand,
/// an absent package after `install`, or an unknown subcommand is fatal,
/// naming the offender.
pub fn parse_cli(args: &Vec<String>) -> (r: Result<CliCommand, FaeError>)
    ensures
        match cli_outcome(args@) {
            Ok(cv) => r matches Ok(c) && c@ == cv,
            Err(ev) => r matches Err(e) && e@ == ev,
        },
{
    if args.len() < 2 {
        return Err(FaeError::InvalidCommand(String::from_str("command")));
    }
    let command = &args[1];
    if str_eq(command.as_str(), "start") {
        Ok(CliCommand::Start)
    } else if str_eq(command.as_str(), "install-deps") {
        Ok(CliCommand::InstallDeps)
    } else if str_eq(command.as_str(), "install") {
        if args.len() < 3 {
            return Err(FaeError::InvalidCommand(String::from_str("package")));
        }
        let package = args[2].clone();
        let version = if args.len() >= 4 {
            args[3].clone()
        } else {
            String::from_str("@latest")
        };
        Ok(CliCommand::Install { package, version })
    } else {
        Err(FaeError::InvalidCommand(command.clone()))
    }
}

} // verus!
