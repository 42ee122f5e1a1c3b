use vstd::prelude::*;
use vstd::string::StrSliceExecFns;
use vstd::string::StringExecFns;
use crate::config::FaeConfig;
use crate::errors::{ErrView, FaeError};
use crate::language::{language_executable, normalize_tag_spec, resolve_language};
use crate::shell::{get_shell_type, shell_executable, shell_tag_of};
use crate::config::{require_language, require_main};
use crate::strings::{lemma_occurs_concat, lemma_replace_len, occurs, occurs_at, replace_all, replace_spec, views_of};

verus! {

/// A fully resolved process invocation: the shell executable to spawn and
/// the ordered arguments handed to it. Ephemeral; never persisted.
#[derive(Debug)]
pub struct ResolvedCommand {
    pub executable: String,
    pub args: Vec<String>,
}

/// The placeholder that an output-file template may carry; it is replaced by
/// the current timestamp.
pub open spec fn time_token() -> Seq<char> {
    seq!['@', 'f', 'a', 'e', '.', 't', 'i', 'm', 'e']
}

/// A sequence wrapped in double quotes, so a path with spaces survives the
/// shell.
pub open spec fn quote_spec(s: Seq<char>) -> Seq<char> {
    seq!['"'] + s + seq!['"']
}

/// Resolution of a relative path against a base directory; an absolute path
/// stands as it is.
pub open spec fn join_path_spec(base: Seq<char>, rel: Seq<char>) -> Seq<char> {
    if rel.len() > 0 && rel[0] == '/' {
        rel
    } else if base.len() > 0 && base[base.len() - 1] == '/' {
        base + rel
    } else {
        base + seq!['/'] + rel
    }
}

/// The characters a formatted timestamp is built of: digits, a possible
/// sign, and the literal separators of the `YYYY-MM-DD@HHhMMmSSs` pattern.
pub open spec fn is_timestamp_char(c: char) -> bool {
    ('0' <= c && c <= '9') || c == '-' || c == '+' || c == '@' || c == 'h' || c == 'm' || c == 's'
}

/// What holds of every formatted timestamp, whatever instant the clock
/// reports: at least 20 characters, all from the timestamp alphabet, ending
/// in the literal `s` of the seconds field.
pub open spec fn is_timestamp(s: Seq<char>) -> bool {
    &&& s.len() >= 20
    &&& s[s.len() - 1] == 's'
    &&& forall|i: int| 0 <= i < s.len() ==> is_timestamp_char(s[i])
}

/// Relies on chrono's `Local::now` and its strftime formatting with the
/// pattern `%Y-%m-%d@%Hh%Mm%Ss`: the zero-padded local date and time. The
/// year is at least four digits with a sign only outside `0..=9999`, every
/// other field is two digits, and the separators are the literal `-`, `@`,
/// `h`, `m` and `s` of the pattern, so the whole is at least 20 characters
/// from the timestamp alphabet and ends in `s`.
#[verifier::external_body]
fn now_timestamp() -> (r: String)
    ensures
        is_timestamp(r@),
{
    chrono::Local::now().format("%Y-%m-%d@%Hh%Mm%Ss").to_string()
}

/// A string wrapped in double quotes.
pub fn quote(s: &str) -> (r: String)
    ensures
        r@ == quote_spec(s@),
{
    let mut out = String::from_str("\"");
    out.append(s);
    out.append("\"");
    proof {
        reveal_strlit("\"");
        assert(out@ =~= quote_spec(s@));
    }
    out
}

/// Resolution of a relative path against a base directory.
pub fn join_path(base: &str, rel: &str) -> (r: String)
    ensures
        r@ == join_path_spec(base@, rel@),
{
    let rlen = rel.unicode_len();
    if rlen > 0 && rel.get_char(0) == '/' {
        return String::from_str(rel);
    }
    let blen = base.unicode_len();
    let mut out = String::from_str(base);
    if !(blen > 0 && base.get_char(blen - 1) == '/') {
        out.append("/");
        proof {
            reveal_strlit("/");
            assert(out@ =~= base@ + seq!['/']);
        }
    }
    out.append(rel);
    proof {
        assert(out@ =~= join_path_spec(base@, rel@));
    }
    out
}

/// Whether consecutive runs append to the output file; overwriting is the
/// default.
pub open spec fn append_mode(config: FaeConfig) -> bool {
    match config.append_output_for_consecutive_runs {
        Some(b) => b,
        None => false,
    }
}

/// The shell redirection operator the output policy selects: `>>` to append,
/// `>` to overwrite.
pub open spec fn redirect_op_spec(append: bool) -> Seq<char> {
    if append {
        ">>"@
    } else {
        ">"@
    }
}

/// Where redirected output lands: the template with its time placeholder
/// substituted, resolved against the working directory.
pub open spec fn output_destination_spec(
    template: Seq<char>,
    timestamp: Seq<char>,
    cwd: Seq<char>,
) -> Seq<char> {
    join_path_spec(cwd, replace_spec(template, time_token(), timestamp))
}

/// The first configuration fault that stops a start operation, if any:
/// a missing entry point, a missing language, an unknown language tag, an
/// unknown shell tag, in that order.
pub open spec fn start_error_of(config: FaeConfig) -> Option<ErrView> {
    if config.main is None {
        Some(ErrView::MissingRequiredField("main"@))
    } else if config.language is None {
        Some(ErrView::MissingRequiredField("language"@))
    } else if language_executable(normalize_tag_spec(config.language->0@)) is None {
        Some(ErrView::UnsupportedLanguage(normalize_tag_spec(config.language->0@)))
    } else if shell_executable(shell_tag_of(config)) is None {
        Some(ErrView::UnsupportedShell(shell_tag_of(config)))
    } else {
        None
    }
}

/// The argument vector of a start operation: the interpreter executable, the
/// quoted resolved entry-point path, and, when output goes to a file, the
/// redirection operator and the quoted resolved destination.
pub open spec fn start_args_spec(config: FaeConfig, cwd: Seq<char>, timestamp: Seq<char>) -> Seq<
    Seq<char>,
>
    recommends
        start_error_of(config) is None,
{
    let exec = language_executable(normalize_tag_spec(config.language->0@))->0;
    let main_path = join_path_spec(cwd, config.main->0@);
    let base = seq![exec, quote_spec(main_path)];
    match config.send_output_to_file {
        Some(tpl) => base + seq![
            redirect_op_spec(append_mode(config)),
            quote_spec(output_destination_spec(tpl@, timestamp, cwd)),
        ],
        None => base,
    }
}

proof fn lemma_replace_prefix_of_token(u: Seq<char>, ts: Seq<char>, j: int)
    requires
        is_timestamp(ts),
        1 <= j <= 8,
        replace_spec(u, time_token(), ts).take(9 - j) == time_token().skip(j),
    ensures
        u.take(9 - j) == time_token().skip(j),
    decreases u.len(),
{
    let t = time_token();
    let r = replace_spec(u, t, ts);
    assert(t.len() == 9);
    if u.len() < 9 {
    } else if u.take(9) == t {
        let rest = replace_spec(u.skip(9), t, ts);
        assert(r == ts + rest);
        assert(r.take(9 - j) =~= ts.take(9 - j));
        assert(ts.take(9 - j)[8 - j] == ts[8 - j]);
        assert(t.skip(j)[8 - j] == t[8]);
        assert(is_timestamp_char(ts[8 - j]));
        assert(!is_timestamp_char('e'));
        assert(false);
    } else {
        let rest = replace_spec(u.drop_first(), t, ts);
        assert(r == seq![u[0]] + rest);
        lemma_replace_len(u.drop_first(), t, ts);
        assert(rest.len() >= 8);
        assert(r.take(9 - j)[0] == u[0]);
        assert(u[0] == t.skip(j)[0]);
        if j < 8 {
            assert(rest.take(8 - j) =~= t.skip(j + 1)) by {
                assert forall|m: int| 0 <= m < 8 - j implies #[trigger] rest.take(8 - j)[m]
                    == t.skip(j + 1)[m] by {
                    assert(r[m + 1] == rest[m]);
                    assert(r.take(9 - j)[m + 1] == r[m + 1]);
                    assert(t.skip(j)[m + 1] == t[j + 1 + m]);
                }
            }
            lemma_replace_prefix_of_token(u.drop_first(), ts, j + 1);
            assert(u.take(9 - j) =~= seq![u[0]] + u.drop_first().take(8 - j));
            assert(u.take(9 - j) =~= t.skip(j));
        } else {
            assert(u.take(1) =~= t.skip(8));
        }
    }
}

/// The output-policy law: substituting a formatted timestamp for the time
/// placeholder leaves no literal placeholder in the result, whatever the
/// template held.
#[verifier::rlimit(50)]
#[verifier::spinoff_prover]
pub proof fn lemma_substitution_removes_token(template: Seq<char>, ts: Seq<char>)
    requires
        is_timestamp(ts),
    ensures
        !occurs(replace_spec(template, time_token(), ts), time_token()),
    decreases template.len(),
{
    let t = time_token();
    let s = template;
    let r = replace_spec(s, t, ts);
    assert(t.len() == 9);
    if s.len() < 9 {
        if occurs(r, t) {
            let i = choose|i: int| occurs_at(r, t, i);
            assert(false);
        }
    } else if s.take(9) == t {
        let rest = replace_spec(s.skip(9), t, ts);
        assert(r == ts + rest);
        lemma_substitution_removes_token(s.skip(9), ts);
        if occurs(r, t) {
            lemma_occurs_concat(ts, rest, t);
            if occurs(ts, t) {
                let i = choose|i: int| occurs_at(ts, t, i);
                assert(ts.subrange(i, i + 9)[1] == ts[i + 1]);
                assert(is_timestamp_char(ts[i + 1]));
                assert(!is_timestamp_char('f'));
                assert(false);
            } else if occurs(rest, t) {
                assert(false);
            } else {
                let k = choose|k: int|
                    1 <= k < t.len() && k <= ts.len() && t.len() - k <= rest.len() && ts.subrange(
                        ts.len() - k,
                        ts.len() as int,
                    ) == t.take(k) && rest.take(t.len() - k) == t.skip(k);
                assert(ts.subrange(ts.len() - k, ts.len() as int)[k - 1] == ts[ts.len() - 1]);
                assert(t.take(k)[k - 1] == t[k - 1]);
                assert(t[k - 1] == 's');
                assert(t[0] != 's' && t[1] != 's' && t[2] != 's' && t[3] != 's' && t[4] != 's'
                    && t[5] != 's' && t[6] != 's' && t[7] != 's' && t[8] != 's');
                assert(false);
            }
        }
    } else {
        let rest = replace_spec(s.drop_first(), t, ts);
        let ghost head = seq![s[0]];
        assert(r == head + rest);
        lemma_substitution_removes_token(s.drop_first(), ts);
        if occurs(r, t) {
            lemma_occurs_concat(head, rest, t);
            if occurs(head, t) {
                let i = choose|i: int| occurs_at(head, t, i);
                assert(false);
            } else if occurs(rest, t) {
                assert(false);
            } else {
                let k = choose|k: int|
                    1 <= k < t.len() && k <= head.len() && t.len() - k <= rest.len()
                        && head.subrange(head.len() - k, head.len() as int) == t.take(k)
                        && rest.take(t.len() - k) == t.skip(k);
                assert(k == 1);
                assert(head.subrange(0, 1) =~= head);
                assert(head[0] == t.take(1)[0]);
                assert(s[0] == t[0]);
                lemma_replace_prefix_of_token(s.drop_first(), ts, 1);
                assert(s.take(9) =~= seq![s[0]] + s.drop_first().take(8));
                assert(s.take(9) =~= t);
                assert(false);
            }
        }
    }
}

/// Composes the process invocation of a start operation from the manifest,
/// the working directory, and a timestamp; pure in all three.
pub fn compose_start_command(config: &FaeConfig, cwd: &str, timestamp: &str) -> (r: Result<
    ResolvedCommand,
    FaeError,
>)
    ensures
        match start_error_of(*config) {
            Some(ev) => r matches Err(e) && e@ == ev,
            None => r matches Ok(c) && c.executable@ == shell_executable(shell_tag_of(*config))->0
                && views_of(c.args@) == start_args_spec(*config, cwd@, timestamp@),
        },
{
    let main = match require_main(config) {
        Ok(m) => m,
        Err(e) => {
            return Err(e);
        },
    };
    let lang = match require_language(config) {
        Ok(l) => l,
        Err(e) => {
            return Err(e);
        },
    };
    let interpreter = match resolve_language(lang.as_str()) {
        Ok(i) => i,
        Err(e) => {
            return Err(e);
        },
    };
    let shell = match get_shell_type(config) {
        Ok(s) => s,
        Err(e) => {
            return Err(e);
        },
    };
    let main_path = join_path(cwd, main.as_str());
    let mut args: Vec<String> = Vec::new();
    args.push(interpreter.executable);
    args.push(quote(main_path.as_str()));
    match &config.send_output_to_file {
        Some(template) => {
            proof {
                reveal_strlit("@fae.time");
                assert("@fae.time"@ =~= time_token());
            }
            let substituted = replace_all(template.as_str(), "@fae.time", timestamp);
            let destination = join_path(cwd, substituted.as_str());
            let append = match config.append_output_for_consecutive_runs {
                Some(b) => b,
                None => false,
            };
            if append {
                args.push(String::from_str(">>"));
            } else {
                args.push(String::from_str(">"));
            }
            args.push(quote(destination.as_str()));
        },
        None => {},
    }
    proof {
        assert(views_of(args@) =~= start_args_spec(*config, cwd@, timestamp@));
    }
    Ok(ResolvedCommand { executable: shell, args })
}

/// Composes the start invocation against the clock: the timestamp placed
/// into the output destination is the formatted current local time.
pub fn compose_start_command_now(config: &FaeConfig, cwd: &str) -> (r: Result<
    ResolvedCommand,
    FaeError,
>)
    ensures
        match start_error_of(*config) {
            Some(ev) => r matches Err(e) && e@ == ev,
            None => r matches Ok(c) && c.executable@ == shell_executable(shell_tag_of(*config))->0
                && (exists|ts: Seq<char>|
                is_timestamp(ts) && views_of(c.args@) == start_args_spec(*config, cwd@, ts)),
        },
{
    let ts = now_timestamp();
    let r = compose_start_command(config, cwd, ts.as_str());
    proof {
        if start_error_of(*config) is None {
            let c = r->Ok_0;
            assert(is_timestamp(ts@) && views_of(c.args@) == start_args_spec(
                *config,
                cwd@,
                ts@,
            ));
        }
    }
    r
}

} // verus!
