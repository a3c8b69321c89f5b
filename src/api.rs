use vstd::prelude::*;

use crate::ident::{RepoId, Timestamp};
use crate::model::{found_ids, has_id, id_index, registered, sorted_by_display_name, updated};
use crate::record::{Repo, RepoError, UpdateRepo};
use crate::store::{outcome_is, str_opt, views_of, RepoStore};

verus! {

/// A request to track the repository at `path`.
#[derive(Clone, Debug, PartialEq, Eq)]
pub struct RegisterRepoRequest {
    pub path: String,
    pub display_name: Option<String>,
}

/// A request to create the folder `folder_name` under `parent_path`, make it a
/// git repository and track it.
#[derive(Clone, Debug, PartialEq, Eq)]
pub struct InitRepoRequest {
    pub parent_path: String,
    pub folder_name: String,
}

/// A request for several records at once.
#[derive(Clone, Debug, PartialEq, Eq)]
pub struct BatchRepoRequest {
    pub ids: Vec<RepoId>,
}

pub open spec fn string_opt(o: Option<String>) -> Option<Seq<char>> {
    match o {
        Some(s) => Some(s@),
        None => None,
    }
}

/// `folder` placed under the directory `parent`.
pub open spec fn joined_path(parent: Seq<char>, folder: Seq<char>) -> Seq<char> {
    if parent.len() == 0 {
        folder
    } else if parent.last() == '/' {
        parent + folder
    } else {
        parent + seq!['/'] + folder
    }
}

/// The path of the folder that `init_repo` creates.
pub fn init_target_path(parent: &str, folder: &str) -> (r: String)
    ensures
        r@ == joined_path(parent@, folder@),
{
    let n = parent.unicode_len();
    if n == 0 {
        folder.to_owned()
    } else if parent.get_char(n - 1) == '/' {
        let mut out = parent.to_owned();
        out.append(folder);
        out
    } else {
        let mut out = parent.to_owned();
        out.append("/");
        proof {
            reveal_strlit("/");
        }
        out.append(folder);
        assert(out@ =~= parent@ + seq!['/'] + folder@);
        out
    }
}

/// Registers the repository of `request`; see `Repo::find_or_create`.
pub fn register_repo(store: &mut RepoStore, request: &RegisterRepoRequest) -> (r: Result<Repo, RepoError>)
    requires
        old(store).wf(),
    ensures
        final(store).wf(),
        exists|id: RepoId, now: Timestamp|
            #![trigger registered(old(store).rows(), request.path@, string_opt(request.display_name), id, now)]
            final(store).rows() == registered(
                old(store).rows(),
                request.path@,
                string_opt(request.display_name),
                id,
                now,
            ).0 && outcome_is(
                r,
                registered(old(store).rows(), request.path@, string_opt(request.display_name), id, now).1,
            ),
{
    let display: Option<&str> = match &request.display_name {
        Some(d) => Some(d.as_str()),
        None => None,
    };
    assert(str_opt(display) == string_opt(request.display_name));
    Repo::find_or_create(store, request.path.as_str(), display)
}

/// Finishes the creation of a new repository folder at time `now`. The target
/// folder is `init_target_path(parent_path, folder_name)`; `target_occupied`
/// says whether it already held content, and `git_initialized` whether making
/// it a git repository succeeded (consulted only when the target was free).
/// Only when both steps succeeded is the folder registered, under `id`.
pub fn init_repo(
    store: &mut RepoStore,
    request: &InitRepoRequest,
    target_occupied: bool,
    git_initialized: bool,
    id: RepoId,
    now: Timestamp,
) -> (r: Result<Repo, RepoError>)
    requires
        old(store).wf(),
    ensures
        final(store).wf(),
        target_occupied ==> r == Err::<Repo, RepoError>(RepoError::PathConflict) && final(store).rows()
            == old(store).rows(),
        !target_occupied && !git_initialized ==> r == Err::<Repo, RepoError>(RepoError::GitInitFailed)
            && final(store).rows() == old(store).rows(),
        !target_occupied && git_initialized ==> {
            let target = joined_path(request.parent_path@, request.folder_name@);
            final(store).rows() == registered(old(store).rows(), target, None, id, now).0
                && outcome_is(r, registered(old(store).rows(), target, None, id, now).1)
        },
{
    if target_occupied {
        return Err(RepoError::PathConflict);
    }
    if !git_initialized {
        return Err(RepoError::GitInitFailed);
    }
    let target = init_target_path(request.parent_path.as_str(), request.folder_name.as_str());
    Repo::find_or_create_with(store, target.as_str(), None, id, now)
}

/// The record `id`, or `NotFound`.
pub fn get_repo(store: &RepoStore, id: RepoId) -> (r: Result<Repo, RepoError>)
    requires
        store.wf(),
    ensures
        has_id(store.rows(), id) ==> r is Ok && r->Ok_0@ == store.rows()[id_index(store.rows(), id)],
        !has_id(store.rows(), id) ==> r == Err::<Repo, RepoError>(RepoError::NotFound),
{
    match Repo::find_by_id(store, id) {
        Some(rec) => Ok(rec),
        None => Err(RepoError::NotFound),
    }
}

/// The records of the requested identifiers that exist.
pub fn get_repos_batch(store: &RepoStore, request: &BatchRepoRequest) -> (r: Vec<Repo>)
    requires
        store.wf(),
    ensures
        views_of(r@) == found_ids(store.rows(), request.ids@),
{
    Repo::find_by_ids(store, request.ids.as_slice())
}

/// All records, ordered by display name.
pub fn get_repos(store: &RepoStore) -> (r: Vec<Repo>)
    ensures
        sorted_by_display_name(views_of(r@)),
        views_of(r@).to_multiset() == store.rows().to_multiset(),
{
    Repo::list_all(store)
}

/// Applies `payload` to the record `id`; see `Repo::update`.
pub fn update_repo(store: &mut RepoStore, id: RepoId, payload: &UpdateRepo) -> (r: Result<Repo, RepoError>)
    requires
        old(store).wf(),
    ensures
        final(store).wf(),
        exists|now: Timestamp|
            #![trigger updated(old(store).rows(), id, *payload, now)]
            final(store).rows() == updated(old(store).rows(), id, *payload, now).0 && outcome_is(
                r,
                updated(old(store).rows(), id, *payload, now).1,
            ),
{
    Repo::update(store, id, payload)
}

} // verus!
