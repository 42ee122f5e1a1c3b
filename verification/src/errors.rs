use vstd::prelude::*;
use vstd::string::StringExecFns;

verus! {

/// The fatal error taxonomy of the runner. Every error ends the invocation;
/// the only retry mechanism is cross-invocation, through the lock record.
#[derive(Debug, PartialEq)]
pub enum FaeError {
    /// No manifest file exists in the project root.
    MissingManifest,
    /// The manifest file exists but is not valid JSON.
    MalformedManifest,
    /// A key that the requested operation needs is absent; the payload names
    /// the key.
    MissingRequiredField(String),
    /// The manifest's language tag, normalized, is not in the language
    /// registry; the payload is that normalized tag.
    UnsupportedLanguage(String),
    /// The manifest's shell tag is not in the shell registry; the payload is
    /// the tag.
    UnsupportedShell(String),
    /// The lock file exists but does not hold a usable `firstRun` record.
    MalformedLock,
    /// Spawning a child process failed; the payload is the attempted
    /// executable.
    SpawnFailure(String),
    /// The first command-line argument is not a known subcommand, or a
    /// required argument is absent; the payload names the offender.
    InvalidCommand(String),
}

/// The mathematical image of a `FaeError`: the same variants over character
/// sequences.
#[verifier::ext_equal]
pub enum ErrView {
    MissingManifest,
    MalformedManifest,
    MissingRequiredField(Seq<char>),
    UnsupportedLanguage(Seq<char>),
    UnsupportedShell(Seq<char>),
    MalformedLock,
    SpawnFailure(Seq<char>),
    InvalidCommand(Seq<char>),
}

impl View for FaeError {
    type V = ErrView;

    open spec fn view(&self) -> ErrView {
        match self {
            FaeError::MissingManifest => ErrView::MissingManifest,
            FaeError::MalformedManifest => ErrView::MalformedManifest,
            FaeError::MissingRequiredField(k) => ErrView::MissingRequiredField(k@),
            FaeError::UnsupportedLanguage(t) => ErrView::UnsupportedLanguage(t@),
            FaeError::UnsupportedShell(t) => ErrView::UnsupportedShell(t@),
            FaeError::MalformedLock => ErrView::MalformedLock,
            FaeError::SpawnFailure(c) => ErrView::SpawnFailure(c@),
            FaeError::InvalidCommand(c) => ErrView::InvalidCommand(c@),
        }
    }
}

/// The single descriptive message that an error prints before the process
/// terminates.
pub open spec fn message_spec(e: ErrView) -> Seq<char> {
    match e {
        ErrView::MissingManifest => "There exists no fae.config.json file in this directory."@,
        ErrView::MalformedManifest => "Could not read fae.config.json. It may be malformed."@,
        ErrView::MissingRequiredField(k) => k + " is not set in fae.config.json file"@,
        ErrView::UnsupportedLanguage(t) => t + " is not supported."@,
        ErrView::UnsupportedShell(t) => t + " is not a supported shell type!"@,
        ErrView::MalformedLock => "Could not read fae-lock.json. It may be malformed."@,
        ErrView::SpawnFailure(c) => "Unable to spawn "@ + c,
        ErrView::InvalidCommand(c) => c + " is not a valid command!"@,
    }
}

impl FaeError {
    /// Renders the error's user-visible message.
    pub fn message(&self) -> (r: String)
        ensures
            r@ == message_spec(self@),
    {
        match self {
            FaeError::MissingManifest => String::from_str(
                "There exists no fae.config.json file in this directory.",
            ),
            FaeError::MalformedManifest => String::from_str(
                "Could not read fae.config.json. It may be malformed.",
            ),
            FaeError::MissingRequiredField(k) => String::from_str(k.as_str()).concat(
                " is not set in fae.config.json file",
            ),
            FaeError::UnsupportedLanguage(t) => String::from_str(t.as_str()).concat(
                " is not supported.",
            ),
            FaeError::UnsupportedShell(t) => String::from_str(t.as_str()).concat(
                " is not a supported shell type!",
            ),
            FaeError::MalformedLock => String::from_str(
                "Could not read fae-lock.json. It may be malformed.",
            ),
            FaeError::SpawnFailure(c) => String::from_str("Unable to spawn ").concat(c.as_str()),
            FaeError::InvalidCommand(c) => String::from_str(c.as_str()).concat(
                " is not a valid command!",
            ),
        }
    }
}

} // verus!
