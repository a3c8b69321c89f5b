use vstd::prelude::*;
use vstd::seq_lib::{group_seq_properties, to_multiset_insert};

use crate::ident::{current_timestamp, RepoId, Timestamp};
use crate::model::{
    backfilled, backfilled_row, found_ids, has_id, has_path, id_index, is_referenced, name_fixed,
    needing_fix, path_index, referenced_rows, registered, rows_wf, sentinel, sorted_by_display_name,
    text_le, updated, NEEDS_BACKFILL,
};
use crate::naming::derive_name;
use crate::record::{Repo, RepoError, RepoView, StoreFault, UpdateRepo};

verus! {

/// The repository table together with the references that projects and
/// workspaces hold to its records. Each operation is one atomic step.
pub struct RepoStore {
    repos: Vec<Repo>,
    project_links: Vec<RepoId>,
    workspace_links: Vec<RepoId>,
}

/// The caller's result `r` is the outcome `res` of a step, record for record.
pub open spec fn outcome_is(r: Result<Repo, RepoError>, res: Result<RepoView, RepoError>) -> bool {
    match r {
        Ok(rec) => res == Ok::<RepoView, RepoError>(rec@),
        Err(e) => res == Err::<RepoView, RepoError>(e),
    }
}

pub open spec fn str_opt(o: Option<&str>) -> Option<Seq<char>> {
    match o {
        Some(d) => Some(d@),
        None => None,
    }
}

pub open spec fn views_of(v: Seq<Repo>) -> Seq<RepoView> {
    v.map_values(|r: Repo| r@)
}

impl RepoStore {
    /// The records, in the order they were created.
    pub closed spec fn rows(&self) -> Seq<RepoView> {
        views_of(self.repos@)
    }

    /// Identifiers that projects refer to.
    pub closed spec fn project_refs(&self) -> Seq<RepoId> {
        self.project_links@
    }

    /// Identifiers that workspaces refer to.
    pub closed spec fn workspace_refs(&self) -> Seq<RepoId> {
        self.workspace_links@
    }

    pub open spec fn wf(&self) -> bool {
        rows_wf(self.rows())
    }

    pub fn new() -> (r: RepoStore)
        ensures
            r.wf(),
            r.rows() == Seq::<RepoView>::empty(),
            r.project_refs() == Seq::<RepoId>::empty(),
            r.workspace_refs() == Seq::<RepoId>::empty(),
    {
        let r = RepoStore { repos: Vec::new(), project_links: Vec::new(), workspace_links: Vec::new() };
        assert(r.rows() =~= Seq::<RepoView>::empty());
        r
    }

    /// A table holding the stored `records` and references, or `None` where
    /// two records share an identifier or a path.
    pub fn load(records: Vec<Repo>, project_links: Vec<RepoId>, workspace_links: Vec<RepoId>) -> (r:
        Option<RepoStore>)
        ensures
            r is Some <==> rows_wf(views_of(records@)),
            r matches Some(st) ==> st.wf() && st.rows() == views_of(records@)
                && st.project_refs() == project_links@ && st.workspace_refs() == workspace_links@,
    {
        let ghost v = views_of(records@);
        let mut i: usize = 0;
        while i < records.len()
            invariant
                i <= records.len(),
                v == views_of(records@),
                forall|a: int, b: int|
                    #![trigger v[a], v[b]]
                    0 <= a < i && 0 <= b < v.len() && a != b ==> v[a].id != v[b].id && v[a].path != v[b].path,
            decreases records.len() - i,
        {
            let mut j: usize = 0;
            while j < records.len()
                invariant
                    i < records.len(),
                    j <= records.len(),
                    v == views_of(records@),
                    forall|a: int, b: int|
                        #![trigger v[a], v[b]]
                        0 <= a < i && 0 <= b < v.len() && a != b ==> v[a].id != v[b].id && v[a].path != v[b].path,
                    forall|b: int|
                        #![trigger v[b]]
                        0 <= b < j && b != i ==> v[i as int].id != v[b].id && v[i as int].path != v[b].path,
                decreases records.len() - j,
            {
                if j != i && (records[i].id == records[j].id || records[i].path == records[j].path) {
                    assert(v[i as int].id == v[j as int].id || v[i as int].path == v[j as int].path);
                    return None;
                }
                j = j + 1;
            }
            i = i + 1;
        }
        Some(RepoStore { repos: records, project_links, workspace_links })
    }

    /// Records that a project refers to the repository `id`.
    pub fn link_project(&mut self, id: RepoId)
        ensures
            final(self).rows() == old(self).rows(),
            final(self).project_refs() == old(self).project_refs().push(id),
            final(self).workspace_refs() == old(self).workspace_refs(),
    {
        self.project_links.push(id);
    }

    /// Records that a workspace refers to the repository `id`.
    pub fn link_workspace(&mut self, id: RepoId)
        ensures
            final(self).rows() == old(self).rows(),
            final(self).project_refs() == old(self).project_refs(),
            final(self).workspace_refs() == old(self).workspace_refs().push(id),
    {
        self.workspace_links.push(id);
    }

    /// Number of records.
    pub fn len(&self) -> (r: usize)
        ensures
            r == self.rows().len(),
    {
        self.repos.len()
    }

    fn position_of_path(&self, path: &String) -> (r: Option<usize>)
        requires
            self.wf(),
        ensures
            match r {
                Some(i) => i < self.rows().len() && self.rows()[i as int].path == path@
                    && path_index(self.rows(), path@) == i,
                None => !has_path(self.rows(), path@),
            },
    {
        let mut i: usize = 0;
        while i < self.repos.len()
            invariant
                i <= self.repos.len(),
                self.wf(),
                forall|k: int| 0 <= k < i ==> self.rows()[k].path != path@,
            decreases self.repos.len() - i,
        {
            if self.repos[i].path == *path {
                proof {
                    let j = path_index(self.rows(), path@);
                    assert(self.rows()[i as int].path == path@);
                    assert(0 <= j < self.rows().len() && self.rows()[j].path == path@);
                    assert(j == i);
                }
                return Some(i);
            }
            i = i + 1;
        }
        None
    }

    fn position_of_id(&self, id: RepoId) -> (r: Option<usize>)
        requires
            self.wf(),
        ensures
            match r {
                Some(i) => i < self.rows().len() && self.rows()[i as int].id == id
                    && id_index(self.rows(), id) == i,
                None => !has_id(self.rows(), id),
            },
    {
        let mut i: usize = 0;
        while i < self.repos.len()
            invariant
                i <= self.repos.len(),
                self.wf(),
                forall|k: int| 0 <= k < i ==> self.rows()[k].id != id,
            decreases self.repos.len() - i,
        {
            if self.repos[i].id == id {
                proof {
                    let j = id_index(self.rows(), id);
                    assert(self.rows()[i as int].id == id);
                    assert(0 <= j < self.rows().len() && self.rows()[j].id == id);
                    assert(j == i);
                }
                return Some(i);
            }
            i = i + 1;
        }
        None
    }
}

impl Repo {
    /// Returns the record for `path`, creating it under `id` at time `now` if
    /// there is none. Lookup and insertion are one step, so however calls for
    /// one path interleave, at most one record for it is ever created.
    pub fn find_or_create_with(
        store: &mut RepoStore,
        path: &str,
        display_name: Option<&str>,
        id: RepoId,
        now: Timestamp,
    ) -> (r: Result<Repo, RepoError>)
        requires
            old(store).wf(),
        ensures
            final(store).wf(),
            final(store).project_refs() == old(store).project_refs(),
            final(store).workspace_refs() == old(store).workspace_refs(),
            final(store).rows() == registered(old(store).rows(), path@, str_opt(display_name), id, now).0,
            outcome_is(r, registered(old(store).rows(), path@, str_opt(display_name), id, now).1),
    {
        let p = path.to_owned();
        match store.position_of_path(&p) {
            Some(i) => {
                return Ok(store.repos[i].duplicate());
            },
            None => {},
        }
        match store.position_of_id(id) {
            Some(_) => {
                return Err(RepoError::Database(StoreFault::DuplicateId));
            },
            None => {},
        }
        let name = derive_name(path, id);
        let display = match display_name {
            Some(d) => d.to_owned(),
            None => name.clone(),
        };
        let rec = Repo {
            id,
            path: p,
            name,
            display_name: display,
            setup_script: None,
            cleanup_script: None,
            copy_files: None,
            parallel_setup_script: false,
            dev_server_script: None,
            created_at: now,
            updated_at: now,
        };
        let out = rec.duplicate();
        let ghost old_rows = store.rows();
        store.repos.push(rec);
        proof {
            assert(store.rows() =~= old_rows.push(out@));
            assert forall|a: int, b: int|
                #![trigger store.rows()[a], store.rows()[b]]
                0 <= a < store.rows().len() && 0 <= b < store.rows().len() && a != b implies
                store.rows()[a].id != store.rows()[b].id && store.rows()[a].path
                    != store.rows()[b].path by {
                if a < old_rows.len() && b < old_rows.len() {
                    assert(old_rows[a] == store.rows()[a] && old_rows[b] == store.rows()[b]);
                } else if a < old_rows.len() {
                    assert(old_rows[a] == store.rows()[a]);
                } else {
                    assert(old_rows[b] == store.rows()[b]);
                }
            }
        }
        Ok(out)
    }

    /// Returns the record for `path`, creating it with a fresh random
    /// identifier at the current time if there is none.
    pub fn find_or_create(store: &mut RepoStore, path: &str, display_name: Option<&str>) -> (r:
        Result<Repo, RepoError>)
        requires
            old(store).wf(),
        ensures
            final(store).wf(),
            final(store).project_refs() == old(store).project_refs(),
            final(store).workspace_refs() == old(store).workspace_refs(),
            exists|id: RepoId, now: Timestamp|
                #![trigger registered(old(store).rows(), path@, str_opt(display_name), id, now)]
                final(store).rows() == registered(old(store).rows(), path@, str_opt(display_name), id, now).0
                    && outcome_is(r, registered(old(store).rows(), path@, str_opt(display_name), id, now).1),
    {
        let id = RepoId::generate();
        let now = current_timestamp();
        Repo::find_or_create_with(store, path, display_name, id, now)
    }

    /// The record with identifier `id`, if there is one.
    pub fn find_by_id(store: &RepoStore, id: RepoId) -> (r: Option<Repo>)
        requires
            store.wf(),
        ensures
            match r {
                Some(rec) => has_id(store.rows(), id) && rec@ == store.rows()[id_index(
                    store.rows(),
                    id,
                )],
                None => !has_id(store.rows(), id),
            },
    {
        match store.position_of_id(id) {
            Some(i) => Some(store.repos[i].duplicate()),
            None => None,
        }
    }

    /// The records of those of `ids` that exist, in the order of `ids`; the
    /// others are left out.
    pub fn find_by_ids(store: &RepoStore, ids: &[RepoId]) -> (r: Vec<Repo>)
        requires
            store.wf(),
        ensures
            views_of(r@) == found_ids(store.rows(), ids@),
    {
        let mut out: Vec<Repo> = Vec::new();
        let mut i: usize = 0;
        while i < ids.len()
            invariant
                i <= ids@.len(),
                store.wf(),
                views_of(out@) == found_ids(store.rows(), ids@.subrange(0, i as int)),
            decreases ids@.len() - i,
        {
            let ghost before = out@;
            assert(ids@.subrange(0, i as int + 1).drop_last() =~= ids@.subrange(0, i as int));
            match Repo::find_by_id(store, ids[i]) {
                Some(rec) => {
                    out.push(rec);
                    assert(views_of(out@) =~= views_of(before).push(out@.last()@));
                },
                None => {},
            }
            i = i + 1;
        }
        assert(ids@.subrange(0, ids@.len() as int) =~= ids@);
        out
    }

    /// Applies `payload` to the record `id` at time `now`, and returns the
    /// record as it now stands.
    pub fn update_at(store: &mut RepoStore, id: RepoId, payload: &UpdateRepo, now: Timestamp) -> (r:
        Result<Repo, RepoError>)
        requires
            old(store).wf(),
        ensures
            final(store).wf(),
            final(store).project_refs() == old(store).project_refs(),
            final(store).workspace_refs() == old(store).workspace_refs(),
            final(store).rows() == updated(old(store).rows(), id, *payload, now).0,
            outcome_is(r, updated(old(store).rows(), id, *payload, now).1),
    {
        match store.position_of_id(id) {
            None => Err(RepoError::NotFound),
            Some(i) => {
                let rec = store.repos[i].merge_update(payload, now);
                let out = rec.duplicate();
                let ghost old_rows = store.rows();
                store.repos.set(i, rec);
                proof {
                    assert(store.rows() =~= old_rows.update(i as int, out@));
                    assert forall|a: int, b: int|
                        #![trigger store.rows()[a], store.rows()[b]]
                        0 <= a < store.rows().len() && 0 <= b < store.rows().len() && a != b implies
                        store.rows()[a].id != store.rows()[b].id && store.rows()[a].path
                            != store.rows()[b].path by {
                        assert(old_rows[a].id == store.rows()[a].id && old_rows[a].path == store.rows()[a].path);
                        assert(old_rows[b].id == store.rows()[b].id && old_rows[b].path == store.rows()[b].path);
                    }
                }
                Ok(out)
            },
        }
    }

    /// Applies `payload` to the record `id` at the current time.
    pub fn update(store: &mut RepoStore, id: RepoId, payload: &UpdateRepo) -> (r: Result<Repo, RepoError>)
        requires
            old(store).wf(),
        ensures
            final(store).wf(),
            final(store).project_refs() == old(store).project_refs(),
            final(store).workspace_refs() == old(store).workspace_refs(),
            exists|now: Timestamp|
                #![trigger updated(old(store).rows(), id, *payload, now)]
                final(store).rows() == updated(old(store).rows(), id, *payload, now).0
                    && outcome_is(r, updated(old(store).rows(), id, *payload, now).1),
    {
        let now = current_timestamp();
        Repo::update_at(store, id, payload, now)
    }
}

/// Every record kept by the reaper is one of the records it started from.
pub proof fn lemma_referenced_rows_within(rows: Seq<RepoView>, p: Seq<RepoId>, w: Seq<RepoId>)
    ensures
        forall|x: RepoView| referenced_rows(rows, p, w).contains(x) ==> rows.contains(x),
    decreases rows.len(),
{
    if rows.len() > 0 {
        lemma_referenced_rows_within(rows.drop_last(), p, w);
        assert forall|x: RepoView| referenced_rows(rows, p, w).contains(x) implies rows.contains(x) by {
            let rest = referenced_rows(rows.drop_last(), p, w);
            if rest.contains(x) {
                let k = choose|k: int| 0 <= k < rest.len() && rest[k] == x;
                assert(rows.drop_last().contains(x));
                let m = choose|m: int| 0 <= m < rows.drop_last().len() && rows.drop_last()[m] == x;
                assert(rows[m] == x);
            } else {
                assert(x == rows.last());
                assert(rows[rows.len() - 1] == x);
            }
        }
    }
}

/// The reaper keeps the table free of duplicate identifiers and paths.
pub proof fn lemma_referenced_rows_wf(rows: Seq<RepoView>, p: Seq<RepoId>, w: Seq<RepoId>)
    requires
        rows_wf(rows),
    ensures
        rows_wf(referenced_rows(rows, p, w)),
    decreases rows.len(),
{
    if rows.len() > 0 {
        let init = rows.drop_last();
        assert(rows_wf(init)) by {
            assert forall|a: int, b: int|
                #![trigger init[a], init[b]]
                0 <= a < init.len() && 0 <= b < init.len() && a != b implies init[a].id != init[b].id
                    && init[a].path != init[b].path by {
                assert(init[a] == rows[a] && init[b] == rows[b]);
            }
        }
        lemma_referenced_rows_wf(init, p, w);
        lemma_referenced_rows_within(init, p, w);
        let rest = referenced_rows(init, p, w);
        if is_referenced(rows.last().id, p, w) {
            let out = rest.push(rows.last());
            assert forall|a: int, b: int|
                #![trigger out[a], out[b]]
                0 <= a < out.len() && 0 <= b < out.len() && a != b implies out[a].id != out[b].id
                    && out[a].path != out[b].path by {
                if a < rest.len() && b < rest.len() {
                    assert(out[a] == rest[a] && out[b] == rest[b]);
                } else {
                    let k = if a < rest.len() { a } else { b };
                    assert(rest.contains(rest[k]));
                    assert(init.contains(rest[k]));
                    let m = choose|m: int| 0 <= m < init.len() && init[m] == rest[k];
                    assert(rows[m] == rest[k]);
                    assert(rows[rows.len() - 1] == rows.last());
                }
            }
        }
    }
}

/// Whether two display names are in code-point order, as `text_le` states.
fn display_le(a: &String, b: &String) -> (r: bool)
    ensures
        r == text_le(a@, b@),
{
    let sa = a.as_str();
    let sb = b.as_str();
    let na = sa.unicode_len();
    let nb = sb.unicode_len();
    let mut i: usize = 0;
    assert(a@.subrange(0, na as int) =~= a@);
    assert(b@.subrange(0, nb as int) =~= b@);
    while i < na && i < nb
        invariant
            i <= na,
            i <= nb,
            na == a@.len(),
            nb == b@.len(),
            sa@ == a@,
            sb@ == b@,
            text_le(a@, b@) == text_le(a@.subrange(i as int, na as int), b@.subrange(i as int, nb as int)),
        decreases na - i,
    {
        let ca = sa.get_char(i);
        let cb = sb.get_char(i);
        let ghost ra = a@.subrange(i as int, na as int);
        let ghost rb = b@.subrange(i as int, nb as int);
        assert(ra[0] == ca && rb[0] == cb);
        if (ca as u32) != (cb as u32) {
            return (ca as u32) < (cb as u32);
        }
        assert(ra.drop_first() =~= a@.subrange(i as int + 1, na as int));
        assert(rb.drop_first() =~= b@.subrange(i as int + 1, nb as int));
        i = i + 1;
    }
    i == na
}

/// Any two texts are ordered one way or the other.
pub proof fn lemma_text_le_total(a: Seq<char>, b: Seq<char>)
    ensures
        text_le(a, b) || text_le(b, a),
    decreases a.len(),
{
    if a.len() > 0 && b.len() > 0 && (a[0] as u32) == (b[0] as u32) {
        lemma_text_le_total(a.drop_first(), b.drop_first());
    }
}

fn is_placeholder(s: &String) -> (r: bool)
    ensures
        r == (s@ == sentinel()),
{
    let t = NEEDS_BACKFILL.to_owned();
    *s == t
}

impl RepoStore {
    fn is_linked(&self, id: RepoId) -> (r: bool)
        ensures
            r == is_referenced(id, self.project_refs(), self.workspace_refs()),
    {
        let mut i: usize = 0;
        while i < self.project_links.len()
            invariant
                i <= self.project_links.len(),
                forall|k: int| 0 <= k < i ==> self.project_links@[k] != id,
            decreases self.project_links.len() - i,
        {
            if self.project_links[i] == id {
                assert(self.project_refs()[i as int] == id);
                return true;
            }
            i = i + 1;
        }
        let mut j: usize = 0;
        while j < self.workspace_links.len()
            invariant
                j <= self.workspace_links.len(),
                !self.project_refs().contains(id),
                forall|k: int| 0 <= k < j ==> self.workspace_links@[k] != id,
            decreases self.workspace_links.len() - j,
        {
            if self.workspace_links[j] == id {
                assert(self.workspace_refs()[j as int] == id);
                return true;
            }
            j = j + 1;
        }
        false
    }
}

impl Repo {
    /// Removes every record that no project and no workspace refers to, and
    /// returns how many were removed. The references are read and the records
    /// removed in one step.
    pub fn delete_orphaned(store: &mut RepoStore) -> (r: u64)
        requires
            old(store).wf(),
        ensures
            final(store).wf(),
            final(store).project_refs() == old(store).project_refs(),
            final(store).workspace_refs() == old(store).workspace_refs(),
            final(store).rows() == referenced_rows(
                old(store).rows(),
                old(store).project_refs(),
                old(store).workspace_refs(),
            ),
            r == old(store).rows().len() - final(store).rows().len(),
    {
        let ghost rows = store.rows();
        let ghost pr = store.project_refs();
        let ghost wr = store.workspace_refs();
        let mut kept: Vec<Repo> = Vec::new();
        let mut i: usize = 0;
        while i < store.repos.len()
            invariant
                i <= store.repos.len(),
                store.rows() == rows,
                store.project_refs() == pr,
                store.workspace_refs() == wr,
                views_of(kept@) == referenced_rows(rows.subrange(0, i as int), pr, wr),
                kept@.len() <= i,
            decreases store.repos.len() - i,
        {
            let ghost before = kept@;
            assert(rows.subrange(0, i as int + 1).drop_last() =~= rows.subrange(0, i as int));
            assert(rows.subrange(0, i as int + 1).last() == rows[i as int]);
            if store.is_linked(store.repos[i].id) {
                kept.push(store.repos[i].duplicate());
                assert(views_of(kept@) =~= views_of(before).push(rows[i as int]));
            }
            i = i + 1;
        }
        assert(rows.subrange(0, rows.len() as int) =~= rows);
        let removed = store.repos.len() - kept.len();
        store.repos = kept;
        proof {
            lemma_referenced_rows_wf(rows, pr, wr);
        }
        removed as u64
    }

    /// The records whose name is still the placeholder, in table order.
    pub fn list_needing_name_fix(store: &RepoStore) -> (r: Vec<Repo>)
        ensures
            views_of(r@) == needing_fix(store.rows()),
    {
        let ghost rows = store.rows();
        let mut out: Vec<Repo> = Vec::new();
        let mut i: usize = 0;
        while i < store.repos.len()
            invariant
                i <= store.repos.len(),
                store.rows() == rows,
                views_of(out@) == needing_fix(rows.subrange(0, i as int)),
            decreases store.repos.len() - i,
        {
            let ghost before = out@;
            assert(rows.subrange(0, i as int + 1).drop_last() =~= rows.subrange(0, i as int));
            assert(rows.subrange(0, i as int + 1).last() == rows[i as int]);
            if is_placeholder(&store.repos[i].name) {
                out.push(store.repos[i].duplicate());
                assert(views_of(out@) =~= views_of(before).push(rows[i as int]));
            }
            i = i + 1;
        }
        assert(rows.subrange(0, rows.len() as int) =~= rows);
        out
    }

    /// Sets the name and display name of the record `id` at time `now`.
    pub fn update_name(
        store: &mut RepoStore,
        id: RepoId,
        name: &str,
        display_name: &str,
        now: Timestamp,
    ) -> (r: Result<(), RepoError>)
        requires
            old(store).wf(),
        ensures
            final(store).wf(),
            final(store).project_refs() == old(store).project_refs(),
            final(store).workspace_refs() == old(store).workspace_refs(),
            has_id(old(store).rows(), id) ==> r is Ok && final(store).rows() == old(store).rows().update(
                id_index(old(store).rows(), id),
                name_fixed(old(store).rows()[id_index(old(store).rows(), id)], name@, display_name@, now),
            ),
            !has_id(old(store).rows(), id) ==> r == Err::<(), RepoError>(RepoError::NotFound)
                && final(store).rows() == old(store).rows(),
    {
        match store.position_of_id(id) {
            None => Err(RepoError::NotFound),
            Some(i) => {
                let ghost old_rows = store.rows();
                let mut rec = store.repos[i].duplicate();
                rec.name = name.to_owned();
                rec.display_name = display_name.to_owned();
                rec.updated_at = now;
                let ghost nv = rec@;
                store.repos.set(i, rec);
                proof {
                    assert(store.rows() =~= old_rows.update(i as int, nv));
                    assert forall|a: int, b: int|
                        #![trigger store.rows()[a], store.rows()[b]]
                        0 <= a < store.rows().len() && 0 <= b < store.rows().len() && a != b implies
                        store.rows()[a].id != store.rows()[b].id && store.rows()[a].path
                            != store.rows()[b].path by {
                        assert(old_rows[a].id == store.rows()[a].id && old_rows[a].path == store.rows()[a].path);
                        assert(old_rows[b].id == store.rows()[b].id && old_rows[b].path == store.rows()[b].path);
                    }
                }
                Ok(())
            },
        }
    }

    /// All records, ordered by display name (code-point order; records with
    /// equal display names keep their table order).
    pub fn list_all(store: &RepoStore) -> (r: Vec<Repo>)
        ensures
            sorted_by_display_name(views_of(r@)),
            views_of(r@).to_multiset() == store.rows().to_multiset(),
    {
        broadcast use group_seq_properties;
        let ghost rows = store.rows();
        let mut out: Vec<Repo> = Vec::new();
        let mut i: usize = 0;
        while i < store.repos.len()
            invariant
                i <= store.repos.len(),
                store.rows() == rows,
                sorted_by_display_name(views_of(out@)),
                views_of(out@).to_multiset() == rows.subrange(0, i as int).to_multiset(),
                out@.len() == i,
            decreases store.repos.len() - i,
        {
            let rec = store.repos[i].duplicate();
            let mut pos: usize = 0;
            while pos < out.len() && display_le(&out[pos].display_name, &rec.display_name)
                invariant
                    pos <= out@.len(),
                    forall|k: int| 0 <= k < pos ==> text_le(#[trigger] out@[k].display_name@, rec.display_name@),
                decreases out@.len() - pos,
            {
                pos = pos + 1;
            }
            let ghost before = views_of(out@);
            proof {
                if pos < out@.len() {
                    lemma_text_le_total(out@[pos as int].display_name@, rec.display_name@);
                }
            }
            let ghost rv = rec@;
            out.insert(pos, rec);
            proof {
                let now_v = views_of(out@);
                assert(now_v =~= before.insert(pos as int, rv));
                to_multiset_insert(before, pos as int, rv);
                assert(rv == rows[i as int]);
                rows.subrange(0, i as int).to_multiset_ensures();
                assert(rows.subrange(0, i as int + 1) =~= rows.subrange(0, i as int).push(rows[i as int]));
                assert forall|k: int| 0 <= k < now_v.len() - 1 implies text_le(
                    #[trigger] now_v[k].display_name,
                    now_v[k + 1].display_name,
                ) by {
                    if k + 1 < pos {
                        assert(now_v[k] == before[k] && now_v[k + 1] == before[k + 1]);
                    } else if k + 1 == pos {
                        assert(now_v[k] == before[k]);
                    } else if k == pos {
                    } else {
                        assert(now_v[k] == before[k - 1] && now_v[k + 1] == before[k]);
                    }
                }
            }
            i = i + 1;
        }
        assert(rows.subrange(0, rows.len() as int) =~= rows);
        out
    }
}

/// The startup repair pass, at time `now`: every record whose name is still
/// the placeholder gets the name derived from its path, and its display name
/// too where that is also the placeholder. Other records are left as they are.
pub fn run_backfill(store: &mut RepoStore, now: Timestamp)
    requires
        old(store).wf(),
    ensures
        final(store).wf(),
        final(store).project_refs() == old(store).project_refs(),
        final(store).workspace_refs() == old(store).workspace_refs(),
        final(store).rows() == backfilled(old(store).rows(), now),
{
    let ghost rows = store.rows();
    let mut i: usize = 0;
    while i < store.repos.len()
        invariant
            i <= store.repos.len(),
            store.repos.len() == rows.len(),
            store.project_refs() == old(store).project_refs(),
            store.workspace_refs() == old(store).workspace_refs(),
            forall|k: int| 0 <= k < i ==> #[trigger] store.rows()[k] == backfilled_row(rows[k], now),
            forall|k: int| i <= k < rows.len() ==> #[trigger] store.rows()[k] == rows[k],
        decreases store.repos.len() - i,
    {
        assert(store.rows()[i as int] == rows[i as int]);
        if is_placeholder(&store.repos[i].name) {
            let name = derive_name(store.repos[i].path.as_str(), store.repos[i].id);
            let display = if is_placeholder(&store.repos[i].display_name) {
                name.clone()
            } else {
                store.repos[i].display_name.clone()
            };
            let mut rec = store.repos[i].duplicate();
            rec.name = name;
            rec.display_name = display;
            rec.updated_at = now;
            let ghost nv = rec@;
            let ghost prev = store.rows();
            assert(nv == backfilled_row(rows[i as int], now));
            store.repos.set(i, rec);
            assert(store.rows() =~= prev.update(i as int, nv));
        } else {
            assert(backfilled_row(rows[i as int], now) == rows[i as int]);
        }
        i = i + 1;
    }
    assert(store.rows() =~= backfilled(rows, now));
    proof {
        let out = store.rows();
        assert forall|a: int, b: int|
            #![trigger out[a], out[b]]
            0 <= a < out.len() && 0 <= b < out.len() && a != b implies out[a].id != out[b].id
                && out[a].path != out[b].path by {
            assert(out[a].id == rows[a].id && out[a].path == rows[a].path);
            assert(out[b].id == rows[b].id && out[b].path == rows[b].path);
        }
    }
}

} // verus!
