use vstd::prelude::*;

use crate::ident::{RepoId, Timestamp};
use crate::naming::text_opt;

verus! {

/// One tracked repository.
#[derive(Clone, Debug, PartialEq, Eq)]
pub struct Repo {
    pub id: RepoId,
    pub path: String,
    pub name: String,
    pub display_name: String,
    pub setup_script: Option<String>,
    pub cleanup_script: Option<String>,
    pub copy_files: Option<String>,
    pub parallel_setup_script: bool,
    pub dev_server_script: Option<String>,
    pub created_at: Timestamp,
    pub updated_at: Timestamp,
}

/// A repository record as plain values.
pub struct RepoView {
    pub id: RepoId,
    pub path: Seq<char>,
    pub name: Seq<char>,
    pub display_name: Seq<char>,
    pub setup_script: Option<Seq<char>>,
    pub cleanup_script: Option<Seq<char>>,
    pub copy_files: Option<Seq<char>>,
    pub parallel_setup_script: bool,
    pub dev_server_script: Option<Seq<char>>,
    pub created_at: Timestamp,
    pub updated_at: Timestamp,
}

impl View for Repo {
    type V = RepoView;

    open spec fn view(&self) -> RepoView {
        RepoView {
            id: self.id,
            path: self.path@,
            name: self.name@,
            display_name: self.display_name@,
            setup_script: text_opt(self.setup_script),
            cleanup_script: text_opt(self.cleanup_script),
            copy_files: text_opt(self.copy_files),
            parallel_setup_script: self.parallel_setup_script,
            dev_server_script: text_opt(self.dev_server_script),
            created_at: self.created_at,
            updated_at: self.updated_at,
        }
    }
}

/// How an update treats one of the optional text fields.
#[derive(Clone, Debug, PartialEq, Eq)]
pub enum FieldUpdate {
    /// Leave the stored value as it is.
    Unset,
    /// Remove the stored value.
    Clear,
    /// Store this value.
    SetTo(String),
}

/// A partial update of a record: every field may be left out.
#[derive(Clone, Debug, PartialEq, Eq)]
pub struct UpdateRepo {
    pub display_name: Option<String>,
    pub setup_script: FieldUpdate,
    pub cleanup_script: FieldUpdate,
    pub copy_files: FieldUpdate,
    pub parallel_setup_script: Option<bool>,
    pub dev_server_script: FieldUpdate,
}

/// A failure of the table itself.
#[derive(Clone, Copy, Debug, PartialEq, Eq, Structural)]
pub enum StoreFault {
    /// The identifier chosen for a new record is already taken.
    DuplicateId,
}

#[derive(Clone, Copy, Debug, PartialEq, Eq, Structural)]
pub enum RepoError {
    Database(StoreFault),
    NotFound,
    PathConflict,
    GitInitFailed,
}

/// The value of an optional text field after `u` is applied to `cur`.
pub open spec fn field_after(u: FieldUpdate, cur: Option<Seq<char>>) -> Option<Seq<char>> {
    match u {
        FieldUpdate::Unset => cur,
        FieldUpdate::Clear => None,
        FieldUpdate::SetTo(s) => Some(s@),
    }
}

/// The record `r` after the partial update `u` made at time `now`.
pub open spec fn merged(r: RepoView, u: UpdateRepo, now: Timestamp) -> RepoView {
    RepoView {
        display_name: match u.display_name {
            Some(d) => d@,
            None => r.display_name,
        },
        setup_script: field_after(u.setup_script, r.setup_script),
        cleanup_script: field_after(u.cleanup_script, r.cleanup_script),
        copy_files: field_after(u.copy_files, r.copy_files),
        parallel_setup_script: match u.parallel_setup_script {
            Some(b) => b,
            None => r.parallel_setup_script,
        },
        dev_server_script: field_after(u.dev_server_script, r.dev_server_script),
        updated_at: now,
        ..r
    }
}

pub fn copy_text_opt(o: &Option<String>) -> (r: Option<String>)
    ensures
        text_opt(r) == text_opt(*o),
{
    match o {
        Some(s) => Some(s.clone()),
        None => None,
    }
}

fn apply_field(u: &FieldUpdate, cur: &Option<String>) -> (r: Option<String>)
    ensures
        text_opt(r) == field_after(*u, text_opt(*cur)),
{
    match u {
        FieldUpdate::Unset => copy_text_opt(cur),
        FieldUpdate::Clear => None,
        FieldUpdate::SetTo(s) => Some(s.clone()),
    }
}

impl Repo {
    /// A copy of the record with the same values.
    pub fn duplicate(&self) -> (r: Repo)
        ensures
            r@ == self@,
    {
        Repo {
            id: self.id,
            path: self.path.clone(),
            name: self.name.clone(),
            display_name: self.display_name.clone(),
            setup_script: copy_text_opt(&self.setup_script),
            cleanup_script: copy_text_opt(&self.cleanup_script),
            copy_files: copy_text_opt(&self.copy_files),
            parallel_setup_script: self.parallel_setup_script,
            dev_server_script: copy_text_opt(&self.dev_server_script),
            created_at: self.created_at,
            updated_at: self.updated_at,
        }
    }

    /// This record with `payload` applied at time `now`.
    pub fn merge_update(&self, payload: &UpdateRepo, now: Timestamp) -> (r: Repo)
        ensures
            r@ == merged(self@, *payload, now),
    {
        let display_name = match &payload.display_name {
            Some(d) => d.clone(),
            None => self.display_name.clone(),
        };
        let parallel_setup_script = match payload.parallel_setup_script {
            Some(b) => b,
            None => self.parallel_setup_script,
        };
        Repo {
            id: self.id,
            path: self.path.clone(),
            name: self.name.clone(),
            display_name,
            setup_script: apply_field(&payload.setup_script, &self.setup_script),
            cleanup_script: apply_field(&payload.cleanup_script, &self.cleanup_script),
            copy_files: apply_field(&payload.copy_files, &self.copy_files),
            parallel_setup_script,
            dev_server_script: apply_field(&payload.dev_server_script, &self.dev_server_script),
            created_at: self.created_at,
            updated_at: now,
        }
    }
}

} // verus!
