//! The decisions around one indexing or search request: resolving the
//! target project from an alias or a path, planning the incremental run,
//! deciding whether a cached index answers a search, and shaping the
//! retrieval reply.

use vstd::prelude::*;
use crate::blob::BlobUpload;
use crate::indexer::{
    incremental_plan, plan_names, plan_new, stored_names, Aliases, ProjectsIndex,
};
use crate::config::normalize_path;
use crate::text::{all_blank, is_blank};

verus! {

/// Why a request could not name its project.
#[derive(Debug)]
pub enum ServiceError {
    /// Neither a project path nor an alias was given.
    NoTarget,
    /// The alias is not bound and no path was given.
    AliasNotFound,
    /// The path could not be normalized; the system's message is carried.
    Path(String),
}

/// No backslash occurs in the string.
pub open spec fn no_backslash(s: Seq<char>) -> bool {
    forall|i: int| 0 <= i < s.len() ==> s[i] != '\\'
}

/// Arguments of a context search.
pub struct SearchArgs {
    pub project_root_path: Option<String>,
    pub alias: Option<String>,
    pub skip_index_if_indexed: Option<bool>,
    pub query: String,
}

/// Arguments of an explicit indexing request.
pub struct IndexArgs {
    pub project_root_path: Option<String>,
    pub alias: Option<String>,
    pub force_full: Option<bool>,
}

/// Resolve which project a request means: a given path is used as it is; a
/// given alias resolves to its bound path; given both, the alias is bound to
/// the normalized path. Returns the normalized project key and the path.
pub fn resolve_target(aliases: &mut Aliases, alias: Option<String>, path: Option<String>) -> (r:
    Result<(String, String), ServiceError>)
    requires
        old(aliases).wf(),
    ensures
        final(aliases).wf(),
        (alias is Some && path is Some) ==> (match r {
            Ok((key, pth)) => {
                &&& final(aliases)@ == old(aliases)@.insert(alias->0@, key@)
                &&& pth@ == path->0@
                &&& no_backslash(key@)
            },
            Err(e) => e is Path && final(aliases)@ == old(aliases)@,
        }),
        (alias is Some && path is None) ==> final(aliases)@ == old(aliases)@ && (match r {
            Ok((key, pth)) => {
                &&& old(aliases)@.contains_key(alias->0@)
                &&& pth@ == old(aliases)@[alias->0@]
                &&& no_backslash(key@)
            },
            Err(e) => {
                &&& (e is AliasNotFound <==> !old(aliases)@.contains_key(alias->0@))
                &&& (e is Path ==> old(aliases)@.contains_key(alias->0@))
            },
        }),
        (alias is None && path is Some) ==> final(aliases)@ == old(aliases)@ && (match r {
            Ok((key, pth)) => pth@ == path->0@ && no_backslash(key@),
            Err(e) => e is Path,
        }),
        (alias is None && path is None) ==> final(aliases)@ == old(aliases)@ && r matches Err(
            ServiceError::NoTarget,
        ),
{
    match (alias, path) {
        (Some(a), Some(p)) => {
            let norm = match normalize_path(p.as_str()) {
                Ok(s) => s,
                Err(m) => {
                    return Err(ServiceError::Path(m));
                },
            };
            aliases.set(a, norm.clone());
            Ok((norm, p))
        },
        (Some(a), None) => {
            let stored = match aliases.resolve(&a) {
                Some(s) => s,
                None => {
                    return Err(ServiceError::AliasNotFound);
                },
            };
            let key = match normalize_path(stored.as_str()) {
                Ok(s) => s,
                Err(m) => {
                    return Err(ServiceError::Path(m));
                },
            };
            Ok((key, stored))
        },
        (None, Some(p)) => {
            let key = match normalize_path(p.as_str()) {
                Ok(s) => s,
                Err(m) => {
                    return Err(ServiceError::Path(m));
                },
            };
            Ok((key, p))
        },
        (None, None) => Err(ServiceError::NoTarget),
    }
}

/// The path a search request means, without touching the alias table: a
/// given alias must resolve; otherwise the given path; otherwise nothing.
pub fn search_path(aliases: &Aliases, args: &SearchArgs) -> (r: Option<String>)
    requires
        aliases.wf(),
    ensures
        args.alias matches Some(a) ==> (match r {
            Some(p) => aliases@.contains_key(a@) && p@ == aliases@[a@],
            None => !aliases@.contains_key(a@),
        }),
        args.alias is None ==> (match r {
            Some(p) => args.project_root_path matches Some(q) && p@ == q@,
            None => args.project_root_path is None,
        }),
{
    match &args.alias {
        Some(a) => aliases.resolve(a),
        None => match &args.project_root_path {
            Some(p) => Some(p.clone()),
            None => None,
        },
    }
}

/// Whether a search may answer from the cache: it may exactly when skipping
/// is allowed and a non-empty fingerprint list is stored for the key; then
/// the stored list is returned.
pub fn search_plan(projects: &ProjectsIndex, key: &String, skip_if_indexed: bool) -> (r: Option<
    Vec<String>,
>)
    requires
        projects.wf(),
    ensures
        r is Some <==> skip_if_indexed && projects@.contains_key(key@) && projects@[key@].len()
            > 0,
        r matches Some(v) ==> v.deep_view() == projects@[key@],
{
    if !skip_if_indexed {
        return None;
    }
    match projects.get(key) {
        Some(v) => {
            if v.len() > 0 {
                Some(clone_names(v))
            } else {
                proof {
                    assert(projects@[key@].len() == 0);
                }
                None
            }
        },
        None => None,
    }
}

/// A copy of a fingerprint list.
fn clone_names(v: &Vec<String>) -> (r: Vec<String>)
    ensures
        r.deep_view() == v.deep_view(),
{
    let mut r: Vec<String> = Vec::new();
    let n = v.len();
    let mut i: usize = 0;
    proof {
        assert(r.deep_view() =~= v.deep_view().take(0));
    }
    while i < n
        invariant
            i <= n,
            n == v@.len(),
            r.deep_view() == v.deep_view().take(i as int),
        decreases n - i,
    {
        let ghost pre = r.deep_view();
        r.push(v[i].clone());
        proof {
            assert(r.deep_view() =~= pre.push(v.deep_view()[i as int]));
            assert(r.deep_view() =~= v.deep_view().take(i + 1));
        }
        i = i + 1;
    }
    proof {
        assert(v.deep_view().take(n as int) =~= v.deep_view());
    }
    r
}

/// Plan one indexing run: the blobs to upload and the full fingerprint list.
/// In force-full mode the stored list is disregarded, so every blob counts
/// as new; otherwise the stored list for the key decides.
pub fn plan_index(
    projects: &ProjectsIndex,
    key: &String,
    blobs: &Vec<BlobUpload>,
    force_full: bool,
) -> (r: (Vec<BlobUpload>, Vec<String>))
    requires
        projects.wf(),
    ensures
        r.1.deep_view() == plan_names(blobs.deep_view()),
        force_full ==> r.0.deep_view() == plan_new(blobs.deep_view(), Seq::empty()),
        !force_full ==> r.0.deep_view() == plan_new(
            blobs.deep_view(),
            stored_names(projects@, key@),
        ),
{
    if force_full {
        let fresh = ProjectsIndex::new();
        let r = incremental_plan(key, blobs, &fresh);
        proof {
            assert(stored_names(fresh@, key@) =~= Seq::<Seq<char>>::empty());
        }
        r
    } else {
        incremental_plan(key, blobs, projects)
    }
}

/// Commit a finished run: the stored list for the key becomes exactly the
/// full fingerprint list of this collection pass (a wholesale replacement,
/// so deleted files drop out implicitly). An aborted or failed run never
/// reaches this point, so it persists nothing.
pub fn commit_index(projects: &mut ProjectsIndex, key: String, all_names: Vec<String>)
    requires
        old(projects).wf(),
    ensures
        final(projects).wf(),
        final(projects)@ == old(projects)@.insert(key@, all_names.deep_view()),
{
    projects.set(key, all_names);
}

/// Committing a run replaces the stored list for its key wholesale with the
/// fingerprint list of the latest collection pass, and leaves every other
/// key's stored list untouched — so runs for different keys cannot lose
/// each other's entries.
pub proof fn lemma_commit_replaces(
    m: Map<Seq<char>, Seq<Seq<char>>>,
    key: Seq<char>,
    names: Seq<Seq<char>>,
)
    ensures
        stored_names(m.insert(key, names), key) == names,
        forall|k2: Seq<char>|
            k2 != key ==> stored_names(m.insert(key, names), k2) == stored_names(m, k2),
{
}

/// The reply for a retrieval response: the formatted text as it came, or
/// the fixed notice when the backend sent only whitespace.
pub fn retrieval_reply(formatted: String) -> (r: String)
    ensures
        !is_blank(formatted@) ==> r@ == formatted@,
        is_blank(formatted@) ==> r@ == "No relevant code context found for your query."@,
{
    if all_blank(formatted.as_str()) {
        "No relevant code context found for your query.".to_owned()
    } else {
        formatted
    }
}

} // verus!
