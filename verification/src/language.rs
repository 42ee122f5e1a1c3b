use vstd::prelude::*;
use vstd::string::StringExecFns;
use crate::errors::{ErrView, FaeError};
use crate::strings::{all_spaces, lemma_lower_concat, lemma_lower_keeps_spaces, lemma_trim_ignores_padding, lower_spec, str_eq, to_lower, trim, trim_spec};

verus! {

/// A resolved interpreter: the executable that runs the entry-point file.
/// The invocation it stands for is the executable followed by the
/// double-quoted file path.
#[derive(Debug)]
pub struct Interpreter {
    pub executable: String,
}

/// Language-tag normalization: lower-cased and stripped of surrounding
/// whitespace.
pub open spec fn normalize_tag_spec(s: Seq<char>) -> Seq<char> {
    trim_spec(lower_spec(s))
}

/// The language registry: the interpreter executable behind a normalized
/// language tag, or nothing for an unknown tag.
pub open spec fn language_executable(tag: Seq<char>) -> Option<Seq<char>> {
    if tag == "py"@ || tag == "python"@ {
        Some("python"@)
    } else if tag == "py3"@ || tag == "python3"@ {
        Some("python3"@)
    } else if tag == "node"@ || tag == "nodejs"@ {
        Some("node"@)
    } else {
        None
    }
}

/// Language-tag law: resolution ignores surrounding whitespace. A tag
/// padded with whitespace on either side normalizes — and so resolves —
/// exactly as the bare tag does.
pub proof fn lemma_resolution_ignores_padding(
    pad_left: Seq<char>,
    tag: Seq<char>,
    pad_right: Seq<char>,
)
    requires
        all_spaces(pad_left),
        all_spaces(pad_right),
    ensures
        normalize_tag_spec(pad_left + tag + pad_right) == normalize_tag_spec(tag),
{
    lemma_lower_concat(pad_left + tag, pad_right);
    lemma_lower_concat(pad_left, tag);
    lemma_lower_keeps_spaces(pad_left);
    lemma_lower_keeps_spaces(pad_right);
    lemma_trim_ignores_padding(lower_spec(pad_left), lower_spec(tag), lower_spec(pad_right));
    assert(lower_spec(pad_left + tag + pad_right) =~= lower_spec(pad_left) + lower_spec(tag)
        + lower_spec(pad_right));
}

/// Language-tag law: resolution is case-insensitive. Two tags that agree up
/// to ASCII case normalize — and so resolve — identically.
pub proof fn lemma_resolution_case_insensitive(a: Seq<char>, b: Seq<char>)
    requires
        lower_spec(a) == lower_spec(b),
    ensures
        normalize_tag_spec(a) == normalize_tag_spec(b),
{
}

/// Resolves a language tag, case-insensitively and ignoring surrounding
/// whitespace, to the interpreter that runs the entry point. An unknown tag
/// is fatal, naming the normalized tag.
pub fn resolve_language(tag: &str) -> (r: Result<Interpreter, FaeError>)
    ensures
        match language_executable(normalize_tag_spec(tag@)) {
            Some(e) => r matches Ok(it) && it.executable@ == e,
            None => r matches Err(err) && err@ == ErrView::UnsupportedLanguage(
                normalize_tag_spec(tag@),
            ),
        },
{
    let lowered = to_lower(tag);
    let normalized = trim(lowered.as_str());
    let t = normalized.as_str();
    if str_eq(t, "py") || str_eq(t, "python") {
        Ok(Interpreter { executable: String::from_str("python") })
    } else if str_eq(t, "py3") || str_eq(t, "python3") {
        Ok(Interpreter { executable: String::from_str("python3") })
    } else if str_eq(t, "node") || str_eq(t, "nodejs") {
        Ok(Interpreter { executable: String::from_str("node") })
    } else {
        Err(FaeError::UnsupportedLanguage(normalized))
    }
}

} // verus!
