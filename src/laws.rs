use vstd::prelude::*;

use crate::ident::{RepoId, Timestamp};
use crate::model::{
    backfilled, backfilled_row, found_ids, has_id, has_path, id_index, is_referenced, path_index,
    referenced_rows, registered, rows_wf, sentinel, updated,
};
use crate::naming::derived_name;
use crate::record::{FieldUpdate, RepoError, RepoView, UpdateRepo};

verus! {

/// One registration call: the display name asked for, the identifier drawn
/// for a new record, and the time of the call.
pub type RegisterCall = (Option<Seq<char>>, RepoId, Timestamp);

/// The table after `calls` register `path` one atomic step after another,
/// and what each caller received, in order.
pub open spec fn register_all(rows: Seq<RepoView>, path: Seq<char>, calls: Seq<RegisterCall>) -> (
    Seq<RepoView>,
    Seq<Result<RepoView, RepoError>>,
)
    decreases calls.len(),
{
    if calls.len() == 0 {
        (rows, Seq::empty())
    } else {
        let (mid, results) = register_all(rows, path, calls.drop_last());
        let c = calls.last();
        let (out, r) = registered(mid, path, c.0, c.1, c.2);
        (out, results.push(r))
    }
}

proof fn lemma_register_step_wf(rows: Seq<RepoView>, path: Seq<char>, d: Option<Seq<char>>, id: RepoId, now: Timestamp)
    requires
        rows_wf(rows),
    ensures
        rows_wf(registered(rows, path, d, id, now).0),
        has_path(registered(rows, path, d, id, now).0, path) || registered(rows, path, d, id, now).0 == rows,
        registered(rows, path, d, id, now).1 is Ok ==> has_path(registered(rows, path, d, id, now).0, path),
{
    let out = registered(rows, path, d, id, now).0;
    if !has_path(rows, path) && !has_id(rows, id) {
        let n = out.len() - 1;
        assert(out[n].path == path);
        assert forall|a: int, b: int|
            #![trigger out[a], out[b]]
            0 <= a < out.len() && 0 <= b < out.len() && a != b implies out[a].id != out[b].id
                && out[a].path != out[b].path by {
            if a < n && b < n {
                assert(out[a] == rows[a] && out[b] == rows[b]);
            } else if a < n {
                assert(out[a] == rows[a]);
            } else {
                assert(out[b] == rows[b]);
            }
        }
    }
}

/// Registration is race-free: however many callers register the same path,
/// since each call is one atomic step, afterwards exactly one record holds
/// that path, and every caller has received that very record. Success is owed
/// when the path was already tracked or the first caller's identifier was free.
pub proof fn lemma_register_unique(rows: Seq<RepoView>, path: Seq<char>, calls: Seq<RegisterCall>)
    requires
        rows_wf(rows),
        calls.len() >= 1,
        has_path(rows, path) || !has_id(rows, calls[0].1),
    ensures
        ({
            let (out, results) = register_all(rows, path, calls);
            let i = path_index(out, path);
            &&& rows_wf(out)
            &&& 0 <= i < out.len() && out[i].path == path
            &&& forall|j: int| 0 <= j < out.len() && #[trigger] out[j].path == path ==> j == i
            &&& results.len() == calls.len()
            &&& forall|k: int| 0 <= k < results.len() ==> #[trigger] results[k] == Ok::<RepoView, RepoError>(out[i])
        }),
    decreases calls.len(),
{
    let (out, results) = register_all(rows, path, calls);
    let c = calls.last();
    if calls.len() == 1 {
        assert(calls.drop_last().len() == 0);
        assert(register_all(rows, path, calls.drop_last()) == (rows, Seq::<Result<RepoView, RepoError>>::empty()));
        assert(c == calls[0]);
        lemma_register_step_wf(rows, path, c.0, c.1, c.2);
        assert(has_path(out, path));
    } else {
        let front = calls.drop_last();
        assert(front[0] == calls[0]);
        lemma_register_unique(rows, path, front);
        let (mid, rs) = register_all(rows, path, front);
        assert(has_path(mid, path));
        assert(out == mid);
        let i = path_index(mid, path);
        assert(results == rs.push(Ok::<RepoView, RepoError>(mid[i])));
        assert forall|k: int| 0 <= k < results.len() implies #[trigger] results[k] == Ok::<RepoView, RepoError>(out[i]) by {
            if k < rs.len() {
                assert(results[k] == rs[k]);
            }
        }
    }
    let i = path_index(out, path);
    assert forall|j: int| 0 <= j < out.len() && #[trigger] out[j].path == path implies j == i by {
        if j != i {
            assert(out[j].path != out[i].path);
        }
    }
}

/// Running the repair pass a second time changes nothing, provided no
/// record's path yields the placeholder itself as its name.
pub proof fn lemma_backfill_idempotent(rows: Seq<RepoView>, t1: Timestamp, t2: Timestamp)
    requires
        forall|i: int| 0 <= i < rows.len() ==> derived_name(#[trigger] rows[i].path, rows[i].id) != sentinel(),
    ensures
        backfilled(backfilled(rows, t1), t2) == backfilled(rows, t1),
{
    let once = backfilled(rows, t1);
    assert forall|i: int| 0 <= i < once.len() implies #[trigger] backfilled_row(once[i], t2) == once[i] by {
        assert(once[i] == backfilled_row(rows[i], t1));
        assert(derived_name(rows[i].path, rows[i].id) != sentinel());
    }
    assert(backfilled(once, t2) =~= once);
}

/// An update changes only the record it names. In that record, the identity,
/// path, name and creation time stay; `updated_at` becomes the time of the
/// update; and each field the payload leaves out keeps its value.
pub proof fn lemma_update_preserves_unspecified(rows: Seq<RepoView>, id: RepoId, u: UpdateRepo, now: Timestamp)
    requires
        rows_wf(rows),
        has_id(rows, id),
    ensures
        ({
            let (out, res) = updated(rows, id, u, now);
            let i = id_index(rows, id);
            let (before, after) = (rows[i], out[i]);
            &&& res == Ok::<RepoView, RepoError>(after)
            &&& out.len() == rows.len()
            &&& forall|j: int| 0 <= j < rows.len() && j != i ==> #[trigger] out[j] == rows[j]
            &&& after.id == before.id && after.path == before.path && after.name == before.name
            &&& after.created_at == before.created_at && after.updated_at == now
            &&& u.display_name is None ==> after.display_name == before.display_name
            &&& u.parallel_setup_script is None ==> after.parallel_setup_script == before.parallel_setup_script
            &&& u.setup_script == FieldUpdate::Unset ==> after.setup_script == before.setup_script
            &&& u.cleanup_script == FieldUpdate::Unset ==> after.cleanup_script == before.cleanup_script
            &&& u.copy_files == FieldUpdate::Unset ==> after.copy_files == before.copy_files
            &&& u.dev_server_script == FieldUpdate::Unset ==> after.dev_server_script == before.dev_server_script
        }),
{
}

/// A field given explicitly as cleared is absent after the update, and a field
/// given a value holds that value.
pub proof fn lemma_update_explicit_clear(rows: Seq<RepoView>, id: RepoId, u: UpdateRepo, now: Timestamp)
    requires
        rows_wf(rows),
        has_id(rows, id),
    ensures
        ({
            let after = updated(rows, id, u, now).0[id_index(rows, id)];
            &&& u.setup_script == FieldUpdate::Clear ==> after.setup_script is None
            &&& u.cleanup_script == FieldUpdate::Clear ==> after.cleanup_script is None
            &&& u.copy_files == FieldUpdate::Clear ==> after.copy_files is None
            &&& u.dev_server_script == FieldUpdate::Clear ==> after.dev_server_script is None
            &&& u.setup_script matches FieldUpdate::SetTo(s) ==> after.setup_script == Some(s@)
            &&& u.cleanup_script matches FieldUpdate::SetTo(s) ==> after.cleanup_script == Some(s@)
            &&& u.copy_files matches FieldUpdate::SetTo(s) ==> after.copy_files == Some(s@)
            &&& u.dev_server_script matches FieldUpdate::SetTo(s) ==> after.dev_server_script == Some(s@)
        }),
{
}

/// The reaper computes a set difference: a record stays exactly when it was
/// there and some project or workspace refers to it.
pub proof fn lemma_reap_set_difference(rows: Seq<RepoView>, p: Seq<RepoId>, w: Seq<RepoId>)
    ensures
        forall|x: RepoView|
            #[trigger] referenced_rows(rows, p, w).contains(x) <==> rows.contains(x) && is_referenced(x.id, p, w),
    decreases rows.len(),
{
    if rows.len() > 0 {
        let init = rows.drop_last();
        lemma_reap_set_difference(init, p, w);
        let rest = referenced_rows(init, p, w);
        assert forall|x: RepoView|
            #[trigger] referenced_rows(rows, p, w).contains(x) <==> rows.contains(x) && is_referenced(x.id, p, w) by {
            let out = referenced_rows(rows, p, w);
            if out.contains(x) {
                if rest.contains(x) {
                    let m = choose|m: int| 0 <= m < init.len() && init[m] == x;
                    assert(rows[m] == x);
                } else {
                    assert(x == rows.last());
                    assert(rows[rows.len() - 1] == x);
                }
            }
            if rows.contains(x) && is_referenced(x.id, p, w) {
                let m = choose|m: int| 0 <= m < rows.len() && rows[m] == x;
                if m < rows.len() - 1 {
                    assert(init[m] == x);
                    assert(init.contains(x));
                    assert(rest.contains(x));
                    let k = choose|k: int| 0 <= k < rest.len() && rest[k] == x;
                    if is_referenced(rows.last().id, p, w) {
                        assert(out[k] == x);
                    } else {
                        assert(out == rest);
                    }
                } else {
                    assert(out[out.len() - 1] == x);
                }
            }
        }
    } else {
        assert(referenced_rows(rows, p, w) =~= Seq::<RepoView>::empty());
    }
}

/// Reaping twice in a row removes nothing the second time.
pub proof fn lemma_reap_idempotent(rows: Seq<RepoView>, p: Seq<RepoId>, w: Seq<RepoId>)
    ensures
        referenced_rows(referenced_rows(rows, p, w), p, w) == referenced_rows(rows, p, w),
    decreases rows.len(),
{
    if rows.len() > 0 {
        let init = rows.drop_last();
        lemma_reap_idempotent(init, p, w);
        let rest = referenced_rows(init, p, w);
        if is_referenced(rows.last().id, p, w) {
            assert(rest.push(rows.last()).drop_last() =~= rest);
        }
    }
}

/// A batch lookup returns only records that exist and were asked for.
pub proof fn lemma_batch_only_present(rows: Seq<RepoView>, ids: Seq<RepoId>)
    ensures
        forall|x: RepoView| #[trigger] found_ids(rows, ids).contains(x) ==> rows.contains(x) && ids.contains(x.id),
    decreases ids.len(),
{
    if ids.len() > 0 {
        let front = ids.drop_last();
        lemma_batch_only_present(rows, front);
        let rest = found_ids(rows, front);
        assert forall|x: RepoView| #[trigger] found_ids(rows, ids).contains(x) implies rows.contains(x)
            && ids.contains(x.id) by {
            if rest.contains(x) {
                let m = choose|m: int| 0 <= m < front.len() && front[m] == x.id;
                assert(ids[m] == x.id);
            } else {
                let id = ids.last();
                let i = id_index(rows, id);
                assert(x == rows[i]);
                assert(ids[ids.len() - 1] == id);
            }
        }
    }
}

} // verus!
