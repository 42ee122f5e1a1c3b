use vstd::prelude::*;
use vstd::string::StringExecFns;
use crate::config::FaeConfig;
use crate::errors::{ErrView, FaeError};
use crate::strings::str_eq;

verus! {

/// The shell registry: the executable behind a shell tag, or nothing for an
/// unknown tag.
pub open spec fn shell_executable(tag: Seq<char>) -> Option<Seq<char>> {
    if tag == "psh"@ || tag == "powershell"@ {
        Some("powershell"@)
    } else if tag == "cmd"@ || tag == "command"@ {
        Some("cmd"@)
    } else {
        None
    }
}

/// The shell tag that a manifest selects: its `shell` field, or the `cmd`
/// default when the field is absent.
pub open spec fn shell_tag_of(config: FaeConfig) -> Seq<char> {
    match config.shell {
        Some(s) => s@,
        None => "cmd"@,
    }
}

/// Resolves the manifest's shell tag to the executable that commands are
/// dispatched through. An unknown tag is fatal, naming that tag.
pub fn get_shell_type(config: &FaeConfig) -> (r: Result<String, FaeError>)
    ensures
        match shell_executable(shell_tag_of(*config)) {
            Some(e) => r matches Ok(s) && s@ == e,
            None => r matches Err(err) && err@ == ErrView::UnsupportedShell(
                shell_tag_of(*config),
            ),
        },
{
    let selection: &str = match &config.shell {
        Some(s) => s.as_str(),
        None => "cmd",
    };
    if str_eq(selection, "psh") || str_eq(selection, "powershell") {
        Ok(String::from_str("powershell"))
    } else if str_eq(selection, "cmd") || str_eq(selection, "command") {
        Ok(String::from_str("cmd"))
    } else {
        Err(FaeError::UnsupportedShell(String::from_str(selection)))
    }
}

} // verus!
