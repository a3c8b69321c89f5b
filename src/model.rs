use vstd::prelude::*;

use crate::ident::{RepoId, Timestamp};
use crate::naming::derived_name;
use crate::record::{merged, RepoError, RepoView, StoreFault, UpdateRepo};

verus! {

/// The name that marks a record whose name has not been derived yet.
pub const NEEDS_BACKFILL: &'static str = "__NEEDS_BACKFILL__";

pub open spec fn sentinel() -> Seq<char> {
    NEEDS_BACKFILL@
}

/// No two records share an identifier or a path.
pub open spec fn rows_wf(rows: Seq<RepoView>) -> bool {
    forall|i: int, j: int|
        #![trigger rows[i], rows[j]]
        0 <= i < rows.len() && 0 <= j < rows.len() && i != j ==> rows[i].id != rows[j].id
            && rows[i].path != rows[j].path
}

pub open spec fn has_path(rows: Seq<RepoView>, p: Seq<char>) -> bool {
    exists|i: int| 0 <= i < rows.len() && rows[i].path == p
}

pub open spec fn path_index(rows: Seq<RepoView>, p: Seq<char>) -> int {
    choose|i: int| 0 <= i < rows.len() && rows[i].path == p
}

pub open spec fn has_id(rows: Seq<RepoView>, id: RepoId) -> bool {
    exists|i: int| 0 <= i < rows.len() && rows[i].id == id
}

pub open spec fn id_index(rows: Seq<RepoView>, id: RepoId) -> int {
    choose|i: int| 0 <= i < rows.len() && rows[i].id == id
}

/// The record that registration creates for `path`.
pub open spec fn new_record(
    path: Seq<char>,
    display_name: Option<Seq<char>>,
    id: RepoId,
    now: Timestamp,
) -> RepoView {
    let name = derived_name(path, id);
    RepoView {
        id,
        path,
        name,
        display_name: match display_name {
            Some(d) => d,
            None => name,
        },
        setup_script: None,
        cleanup_script: None,
        copy_files: None,
        parallel_setup_script: false,
        dev_server_script: None,
        created_at: now,
        updated_at: now,
    }
}

/// Registration as one atomic step: the table after it, and what the caller gets.
/// An existing record for the path is returned as it is; otherwise a record is
/// created under the identifier `id`, unless that identifier is taken.
pub open spec fn registered(
    rows: Seq<RepoView>,
    path: Seq<char>,
    display_name: Option<Seq<char>>,
    id: RepoId,
    now: Timestamp,
) -> (Seq<RepoView>, Result<RepoView, RepoError>) {
    if has_path(rows, path) {
        (rows, Ok(rows[path_index(rows, path)]))
    } else if has_id(rows, id) {
        (rows, Err(RepoError::Database(StoreFault::DuplicateId)))
    } else {
        let r = new_record(path, display_name, id, now);
        (rows.push(r), Ok(r))
    }
}

/// A partial update as one atomic step.
pub open spec fn updated(rows: Seq<RepoView>, id: RepoId, u: UpdateRepo, now: Timestamp) -> (
    Seq<RepoView>,
    Result<RepoView, RepoError>,
) {
    if has_id(rows, id) {
        let i = id_index(rows, id);
        let r = merged(rows[i], u, now);
        (rows.update(i, r), Ok(r))
    } else {
        (rows, Err(RepoError::NotFound))
    }
}

/// The records of the requested identifiers that exist, in the order asked.
pub open spec fn found_ids(rows: Seq<RepoView>, ids: Seq<RepoId>) -> Seq<RepoView>
    decreases ids.len(),
{
    if ids.len() == 0 {
        Seq::empty()
    } else {
        let rest = found_ids(rows, ids.drop_last());
        let id = ids.last();
        if has_id(rows, id) {
            rest.push(rows[id_index(rows, id)])
        } else {
            rest
        }
    }
}

pub open spec fn is_referenced(id: RepoId, project_refs: Seq<RepoId>, workspace_refs: Seq<RepoId>) -> bool {
    project_refs.contains(id) || workspace_refs.contains(id)
}

/// The records that some project or workspace refers to, in their order.
pub open spec fn referenced_rows(
    rows: Seq<RepoView>,
    project_refs: Seq<RepoId>,
    workspace_refs: Seq<RepoId>,
) -> Seq<RepoView>
    decreases rows.len(),
{
    if rows.len() == 0 {
        Seq::empty()
    } else {
        let rest = referenced_rows(rows.drop_last(), project_refs, workspace_refs);
        if is_referenced(rows.last().id, project_refs, workspace_refs) {
            rest.push(rows.last())
        } else {
            rest
        }
    }
}

/// The records whose name is still the placeholder, in their order.
pub open spec fn needing_fix(rows: Seq<RepoView>) -> Seq<RepoView>
    decreases rows.len(),
{
    if rows.len() == 0 {
        Seq::empty()
    } else {
        let rest = needing_fix(rows.drop_last());
        if rows.last().name == sentinel() {
            rest.push(rows.last())
        } else {
            rest
        }
    }
}

/// A record after its name is derived from its path at time `now`; the display
/// name follows where it was the placeholder too.
pub open spec fn name_fixed(r: RepoView, name: Seq<char>, display_name: Seq<char>, now: Timestamp) -> RepoView {
    RepoView { name, display_name, updated_at: now, ..r }
}

/// One record after the repair pass at time `now`.
pub open spec fn backfilled_row(r: RepoView, now: Timestamp) -> RepoView {
    if r.name == sentinel() {
        let n = derived_name(r.path, r.id);
        name_fixed(r, n, if r.display_name == sentinel() { n } else { r.display_name }, now)
    } else {
        r
    }
}

pub open spec fn backfilled(rows: Seq<RepoView>, now: Timestamp) -> Seq<RepoView> {
    rows.map_values(|r: RepoView| backfilled_row(r, now))
}

/// `a` comes no later than `b` in code-point order.
pub open spec fn text_le(a: Seq<char>, b: Seq<char>) -> bool
    decreases a.len(),
{
    if a.len() == 0 {
        true
    } else if b.len() == 0 {
        false
    } else if (a[0] as u32) != (b[0] as u32) {
        (a[0] as u32) < (b[0] as u32)
    } else {
        text_le(a.drop_first(), b.drop_first())
    }
}

/// Each record's display name comes no later than the next one's.
pub open spec fn sorted_by_display_name(rows: Seq<RepoView>) -> bool {
    forall|k: int| 0 <= k < rows.len() - 1 ==> text_le(#[trigger] rows[k].display_name, rows[k + 1].display_name)
}

} // verus!
