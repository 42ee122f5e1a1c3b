use vstd::prelude::*;
use vstd::string::StringExecFns;
use crate::errors::{ErrView, FaeError};
use crate::strings::str_eq;

verus! {

/// The project manifest: the declarative description that one invocation of
/// the runner works from. `main` and `language` must both be present before a
/// start operation; every other field has a default.
pub struct FaeConfig {
    pub main: Option<String>,
    pub args: Option<Vec<String>>,
    pub scripts: Option<Vec<(String, String)>>,
    pub language: Option<String>,
    pub append_output_for_consecutive_runs: Option<bool>,
    pub send_output_to_file: Option<String>,
    pub shell: Option<String>,
    pub external_dependencies: Option<Vec<(String, String)>>,
    pub installation_command_version: Option<String>,
    pub installation_command_latest: Option<String>,
}

/// First-match lookup in a dependency list: the version recorded for
/// `key`, if any.
pub open spec fn deps_lookup(deps: Seq<(String, String)>, key: Seq<char>) -> Option<Seq<char>>
    decreases deps.len(),
{
    if deps.len() == 0 {
        None
    } else if deps[0].0@ == key {
        Some(deps[0].1@)
    } else {
        deps_lookup(deps.drop_first(), key)
    }
}

proof fn lemma_deps_lookup_update(deps: Seq<(String, String)>, i: int, p: (String, String), k: Seq<
    char,
>)
    requires
        0 <= i < deps.len(),
        p.0@ == deps[i].0@,
    ensures
        (k == p.0@ && (forall|j: int| 0 <= j < i ==> deps[j].0@ != k)) ==> deps_lookup(
            deps.update(i, p),
            k,
        ) == Some(p.1@),
        k != p.0@ ==> deps_lookup(deps.update(i, p), k) == deps_lookup(deps, k),
    decreases deps.len(),
{
    let up = deps.update(i, p);
    if i == 0 {
        assert(up[0] == p);
        if k != p.0@ {
            assert(up.drop_first() =~= deps.drop_first());
        }
    } else {
        assert(up[0] == deps[0]);
        assert(up.drop_first() =~= deps.drop_first().update(i - 1, p));
        lemma_deps_lookup_update(deps.drop_first(), i - 1, p, k);
        if k == p.0@ && (forall|j: int| 0 <= j < i ==> deps[j].0@ != k) {
            assert(deps[0].0@ != k);
            assert(forall|j: int| 0 <= j < i - 1 ==> deps.drop_first()[j].0@ != k);
        }
    }
}

proof fn lemma_deps_lookup_push(deps: Seq<(String, String)>, p: (String, String), k: Seq<char>)
    ensures
        (k == p.0@ && (forall|j: int| 0 <= j < deps.len() ==> deps[j].0@ != k)) ==> deps_lookup(
            deps.push(p),
            k,
        ) == Some(p.1@),
        deps_lookup(deps, k) is Some ==> deps_lookup(deps.push(p), k) == deps_lookup(deps, k),
        (k != p.0@ && deps_lookup(deps, k) is None) ==> deps_lookup(deps.push(p), k) is None,
    decreases deps.len(),
{
    let pu = deps.push(p);
    if deps.len() == 0 {
        assert(pu[0] == p);
        if k != p.0@ {
            assert(pu.drop_first() =~= Seq::<(String, String)>::empty());
        }
    } else {
        assert(pu[0] == deps[0]);
        assert(pu.drop_first() =~= deps.drop_first().push(p));
        lemma_deps_lookup_push(deps.drop_first(), p, k);
    }
}

/// Records `package` at `version` in the dependency list: the first entry
/// with that package name is overwritten, or a new entry is appended. Every
/// other package's recorded version is unchanged.
#[verifier::loop_isolation(false)]
pub fn add_dependency(deps: &mut Vec<(String, String)>, package: &str, version: &str)
    ensures
        deps_lookup(final(deps)@, package@) == Some(version@),
        forall|k: Seq<char>| k != package@ ==> deps_lookup(final(deps)@, k) == deps_lookup(
            old(deps)@,
            k,
        ),
{
    let ghost orig = deps@;
    let len = deps.len();
    let mut i: usize = 0;
    while i < len
        invariant
            deps@ == orig,
            len == deps@.len(),
            i <= len,
            forall|j: int| 0 <= j < i ==> deps@[j].0@ != package@,
        decreases len - i,
    {
        if str_eq(deps[i].0.as_str(), package) {
            let entry = (String::from_str(package), String::from_str(version));
            deps.set(i, entry);
            proof {
                assert forall|k: Seq<char>| k != package@ implies deps_lookup(deps@, k)
                    == deps_lookup(orig, k) by {
                    lemma_deps_lookup_update(orig, i as int, entry, k);
                }
                lemma_deps_lookup_update(orig, i as int, entry, package@);
            }
            return ;
        }
        i = i + 1;
    }
    let entry = (String::from_str(package), String::from_str(version));
    deps.push(entry);
    proof {
        assert forall|k: Seq<char>| k != package@ implies deps_lookup(deps@, k) == deps_lookup(
            orig,
            k,
        ) by {
            lemma_deps_lookup_push(orig, entry, k);
            lemma_deps_lookup_none(orig, k);
        }
        lemma_deps_lookup_push(orig, entry, package@);
    }
}

proof fn lemma_deps_lookup_none(deps: Seq<(String, String)>, k: Seq<char>)
    ensures
        (forall|j: int| 0 <= j < deps.len() ==> deps[j].0@ != k) ==> deps_lookup(deps, k) is None,
        deps_lookup(deps, k) is None ==> (forall|j: int| 0 <= j < deps.len() ==> deps[j].0@ != k),
    decreases deps.len(),
{
    if deps.len() > 0 {
        lemma_deps_lookup_none(deps.drop_first(), k);
        if deps_lookup(deps, k) is None {
            assert forall|j: int| 0 <= j < deps.len() implies deps[j].0@ != k by {
                if j > 0 {
                    assert(deps.drop_first()[j - 1].0@ != k);
                }
            }
        }
    }
}

/// The entry-point file that a start operation runs; its absence is a
/// configuration error naming the `main` key.
pub fn require_main(config: &FaeConfig) -> (r: Result<String, FaeError>)
    ensures
        config.main matches Some(m) ==> r == Ok::<String, FaeError>(m),
        config.main is None ==> (r matches Err(e) && e@ == ErrView::MissingRequiredField(
            "main"@,
        )),
{
    match &config.main {
        Some(m) => Ok(m.clone()),
        None => Err(FaeError::MissingRequiredField(String::from_str("main"))),
    }
}

/// The language tag that a start operation resolves; its absence is a
/// configuration error naming the `language` key.
pub fn require_language(config: &FaeConfig) -> (r: Result<String, FaeError>)
    ensures
        config.language matches Some(l) ==> r == Ok::<String, FaeError>(l),
        config.language is None ==> (r matches Err(e) && e@ == ErrView::MissingRequiredField(
            "language"@,
        )),
{
    match &config.language {
        Some(l) => Ok(l.clone()),
        None => Err(FaeError::MissingRequiredField(String::from_str("language"))),
    }
}

} // verus!
