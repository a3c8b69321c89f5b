use repo_registry::api::{
    get_repo, get_repos, get_repos_batch, init_repo, init_target_path, register_repo, update_repo,
    BatchRepoRequest, InitRepoRequest, RegisterRepoRequest,
};
use repo_registry::ident::RepoId;
use repo_registry::model::NEEDS_BACKFILL;
use repo_registry::naming::{derive_name, file_name};
use repo_registry::record::{FieldUpdate, Repo, RepoError, StoreFault, UpdateRepo};
use repo_registry::store::{run_backfill, RepoStore};

fn id(v: u128) -> RepoId {
    RepoId::from_u128(v)
}

fn keep_all() -> UpdateRepo {
    UpdateRepo {
        display_name: None,
        setup_script: FieldUpdate::Unset,
        cleanup_script: FieldUpdate::Unset,
        copy_files: FieldUpdate::Unset,
        parallel_setup_script: None,
        dev_server_script: FieldUpdate::Unset,
    }
}

fn legacy(v: u128, path: &str, display_name: &str) -> Repo {
    Repo {
        id: id(v),
        path: path.to_string(),
        name: NEEDS_BACKFILL.to_string(),
        display_name: display_name.to_string(),
        setup_script: None,
        cleanup_script: None,
        copy_files: None,
        parallel_setup_script: false,
        dev_server_script: None,
        created_at: 5,
        updated_at: 5,
    }
}

#[test]
fn register_same_path_twice_yields_one_record() {
    let mut store = RepoStore::new();
    let a = Repo::find_or_create_with(&mut store, "/work/alpha", None, id(1), 10).unwrap();
    let b = Repo::find_or_create_with(&mut store, "/work/alpha", Some("Other"), id(2), 20).unwrap();
    assert_eq!(a, b);
    assert_eq!(b.id, id(1));
    assert_eq!(b.path, "/work/alpha");
    assert_eq!(b.display_name, "alpha");
    assert_eq!(store.len(), 1);
}

#[test]
fn register_many_callers_same_path() {
    let mut store = RepoStore::new();
    let mut seen = Vec::new();
    for _ in 0..5 {
        seen.push(Repo::find_or_create(&mut store, "/srv/shared", None).unwrap());
    }
    assert_eq!(store.len(), 1);
    for r in &seen {
        assert_eq!(r.path, "/srv/shared");
        assert_eq!(r.id, seen[0].id);
    }
}

#[test]
fn register_derives_name_from_last_segment() {
    let mut store = RepoStore::new();
    let r = Repo::find_or_create_with(&mut store, "/home/user/projects/my-app", None, id(7), 1).unwrap();
    assert_eq!(r.name, "my-app");
    assert_eq!(r.display_name, "my-app");
    assert_eq!(r.setup_script, None);
    assert!(!r.parallel_setup_script);
    assert_eq!(r.created_at, 1);
    assert_eq!(r.updated_at, 1);
}

#[test]
fn register_keeps_given_display_name() {
    let mut store = RepoStore::new();
    let r = Repo::find_or_create_with(&mut store, "/a/b/", Some("Bee"), id(7), 1).unwrap();
    assert_eq!(r.name, "b");
    assert_eq!(r.display_name, "Bee");
}

#[test]
fn register_root_path_falls_back_to_identifier() {
    let mut store = RepoStore::new();
    let v = 0xa1a2a3a4b1b2c1c2d1d2d3d4d5d6d7d8u128;
    let r = Repo::find_or_create_with(&mut store, "/", None, id(v), 1).unwrap();
    assert_eq!(r.name, "a1a2a3a4-b1b2-c1c2-d1d2-d3d4d5d6d7d8");
    assert_eq!(r.display_name, r.name);
}

#[test]
fn register_with_taken_identifier_is_a_database_error() {
    let mut store = RepoStore::new();
    Repo::find_or_create_with(&mut store, "/x", None, id(3), 1).unwrap();
    let e = Repo::find_or_create_with(&mut store, "/y", None, id(3), 2);
    assert_eq!(e, Err(RepoError::Database(StoreFault::DuplicateId)));
    assert_eq!(store.len(), 1);
}

#[test]
fn file_name_follows_path_components() {
    assert_eq!(file_name("/home/user/projects/my-app"), Some("my-app".to_string()));
    assert_eq!(file_name("a//b///"), Some("b".to_string()));
    assert_eq!(file_name("a/./"), Some("a".to_string()));
    assert_eq!(file_name("a/.."), None);
    assert_eq!(file_name("/"), None);
    assert_eq!(file_name(""), None);
    assert_eq!(file_name("."), None);
    assert_eq!(file_name("/tmp/.hidden"), Some(".hidden".to_string()));
    assert_eq!(file_name("/tmp/..x"), Some("..x".to_string()));
}

#[test]
fn derive_name_uses_identifier_text_without_component() {
    let n = derive_name("..", id(0));
    assert_eq!(n, "00000000-0000-0000-0000-000000000000");
    assert_eq!(derive_name("/p/q", id(0)), "q");
}

#[test]
fn identifier_text_is_hyphenated() {
    let r = id(0x0123456789abcdef0123456789abcdefu128);
    assert_eq!(r.to_text(), "01234567-89ab-cdef-0123-456789abcdef");
    assert_eq!(r.as_u128(), 0x0123456789abcdef0123456789abcdefu128);
    assert_ne!(RepoId::generate(), RepoId::generate());
}

#[test]
fn update_preserves_unspecified_fields() {
    let mut store = RepoStore::new();
    let r = Repo::find_or_create_with(&mut store, "/r", None, id(1), 1).unwrap();
    let mut p = keep_all();
    p.setup_script = FieldUpdate::SetTo("a".to_string());
    Repo::update_at(&mut store, r.id, &p, 2).unwrap();
    let mut q = keep_all();
    q.display_name = Some("X".to_string());
    let after = Repo::update_at(&mut store, r.id, &q, 3).unwrap();
    assert_eq!(after.setup_script, Some("a".to_string()));
    assert_eq!(after.display_name, "X");
    assert_eq!(after.updated_at, 3);
    assert_eq!(after.name, "r");
    assert_eq!(after.created_at, 1);
    assert_eq!(Repo::find_by_id(&store, r.id), Some(after));
}

#[test]
fn update_explicit_clear_removes_and_unset_keeps() {
    let mut store = RepoStore::new();
    let r = Repo::find_or_create_with(&mut store, "/r", None, id(1), 1).unwrap();
    let mut p = keep_all();
    p.cleanup_script = FieldUpdate::SetTo("b".to_string());
    p.parallel_setup_script = Some(true);
    Repo::update_at(&mut store, r.id, &p, 2).unwrap();
    let kept = Repo::update_at(&mut store, r.id, &keep_all(), 3).unwrap();
    assert_eq!(kept.cleanup_script, Some("b".to_string()));
    assert!(kept.parallel_setup_script);
    let mut c = keep_all();
    c.cleanup_script = FieldUpdate::Clear;
    let cleared = Repo::update_at(&mut store, r.id, &c, 4).unwrap();
    assert_eq!(cleared.cleanup_script, None);
    assert!(cleared.parallel_setup_script);
}

#[test]
fn update_missing_record_is_not_found() {
    let mut store = RepoStore::new();
    assert_eq!(Repo::update(&mut store, id(9), &keep_all()), Err(RepoError::NotFound));
    assert_eq!(update_repo(&mut store, id(9), &keep_all()), Err(RepoError::NotFound));
}

#[test]
fn update_at_current_time_sets_fields() {
    let mut store = RepoStore::new();
    let r = Repo::find_or_create_with(&mut store, "/r", None, id(1), 1).unwrap();
    let mut p = keep_all();
    p.dev_server_script = FieldUpdate::SetTo("npm run dev".to_string());
    let after = Repo::update(&mut store, r.id, &p).unwrap();
    assert_eq!(after.dev_server_script, Some("npm run dev".to_string()));
    assert!(after.updated_at > 1);
}

#[test]
fn delete_orphaned_removes_only_unreferenced() {
    let mut store = RepoStore::new();
    let r1 = Repo::find_or_create_with(&mut store, "/one", None, id(1), 1).unwrap();
    let r2 = Repo::find_or_create_with(&mut store, "/two", None, id(2), 1).unwrap();
    store.link_workspace(r1.id);
    assert_eq!(Repo::delete_orphaned(&mut store), 1);
    assert!(Repo::find_by_id(&store, r1.id).is_some());
    assert!(Repo::find_by_id(&store, r2.id).is_none());
    assert_eq!(Repo::delete_orphaned(&mut store), 0);
}

#[test]
fn delete_orphaned_keeps_project_references() {
    let mut store = RepoStore::new();
    let r1 = Repo::find_or_create_with(&mut store, "/one", None, id(1), 1).unwrap();
    Repo::find_or_create_with(&mut store, "/two", None, id(2), 1).unwrap();
    Repo::find_or_create_with(&mut store, "/three", None, id(3), 1).unwrap();
    store.link_project(r1.id);
    assert_eq!(Repo::delete_orphaned(&mut store), 2);
    assert_eq!(store.len(), 1);
}

#[test]
fn find_by_ids_omits_missing() {
    let mut store = RepoStore::new();
    let r1 = Repo::find_or_create_with(&mut store, "/one", None, id(1), 1).unwrap();
    let found = Repo::find_by_ids(&store, &[id(1), id(2)]);
    assert_eq!(found, vec![r1.clone()]);
    assert!(Repo::find_by_ids(&store, &[]).is_empty());
    let req = BatchRepoRequest { ids: vec![id(2), id(1)] };
    assert_eq!(get_repos_batch(&store, &req), vec![r1]);
}

#[test]
fn get_repo_found_and_missing() {
    let mut store = RepoStore::new();
    let r = Repo::find_or_create_with(&mut store, "/one", None, id(1), 1).unwrap();
    assert_eq!(get_repo(&store, id(1)), Ok(r));
    assert_eq!(get_repo(&store, id(2)), Err(RepoError::NotFound));
}

#[test]
fn list_all_sorts_by_display_name() {
    let mut store = RepoStore::new();
    Repo::find_or_create_with(&mut store, "/p/zeta", None, id(1), 1).unwrap();
    Repo::find_or_create_with(&mut store, "/p/Alpha", None, id(2), 1).unwrap();
    Repo::find_or_create_with(&mut store, "/p/beta", None, id(3), 1).unwrap();
    Repo::find_or_create_with(&mut store, "/p/al", None, id(4), 1).unwrap();
    let names: Vec<String> = Repo::list_all(&store).into_iter().map(|r| r.display_name).collect();
    assert_eq!(names, vec!["Alpha", "al", "beta", "zeta"]);
    assert_eq!(get_repos(&store).len(), 4);
}

#[test]
fn backfill_fixes_placeholder_names_once() {
    let records = vec![
        legacy(1, "/code/legacy-app", NEEDS_BACKFILL),
        legacy(2, "/code/other", "Shown"),
    ];
    let mut store = RepoStore::load(records, vec![], vec![]).unwrap();
    assert_eq!(Repo::list_needing_name_fix(&store).len(), 2);
    run_backfill(&mut store, 50);
    let a = Repo::find_by_id(&store, id(1)).unwrap();
    assert_eq!(a.name, "legacy-app");
    assert_eq!(a.display_name, "legacy-app");
    assert_eq!(a.updated_at, 50);
    let b = Repo::find_by_id(&store, id(2)).unwrap();
    assert_eq!(b.name, "other");
    assert_eq!(b.display_name, "Shown");
    assert!(Repo::list_needing_name_fix(&store).is_empty());
    let snapshot = Repo::list_all(&store);
    run_backfill(&mut store, 99);
    assert_eq!(Repo::list_all(&store), snapshot);
}

#[test]
fn update_name_sets_both_names() {
    let mut store = RepoStore::load(vec![legacy(1, "/c/x", NEEDS_BACKFILL)], vec![], vec![]).unwrap();
    assert_eq!(Repo::update_name(&mut store, id(1), "x", "X", 8), Ok(()));
    let r = Repo::find_by_id(&store, id(1)).unwrap();
    assert_eq!((r.name.as_str(), r.display_name.as_str(), r.updated_at), ("x", "X", 8));
    assert_eq!(Repo::update_name(&mut store, id(2), "y", "Y", 8), Err(RepoError::NotFound));
}

#[test]
fn load_rejects_duplicate_paths_and_ids() {
    let dup_path = vec![legacy(1, "/same", "a"), legacy(2, "/same", "b")];
    assert!(RepoStore::load(dup_path, vec![], vec![]).is_none());
    let dup_id = vec![legacy(1, "/a", "a"), legacy(1, "/b", "b")];
    assert!(RepoStore::load(dup_id, vec![], vec![]).is_none());
    let fine = vec![legacy(1, "/a", "a"), legacy(2, "/b", "b")];
    assert_eq!(RepoStore::load(fine, vec![], vec![]).unwrap().len(), 2);
}

#[test]
fn register_repo_request() {
    let mut store = RepoStore::new();
    let req = RegisterRepoRequest { path: "/w/site".to_string(), display_name: Some("Site".to_string()) };
    let r = register_repo(&mut store, &req).unwrap();
    assert_eq!(r.name, "site");
    assert_eq!(r.display_name, "Site");
    let again = register_repo(&mut store, &req).unwrap();
    assert_eq!(again, r);
}

#[test]
fn init_repo_outcomes() {
    let mut store = RepoStore::new();
    let req = InitRepoRequest { parent_path: "/home/me/".to_string(), folder_name: "fresh".to_string() };
    assert_eq!(init_repo(&mut store, &req, true, true, id(1), 1), Err(RepoError::PathConflict));
    assert_eq!(init_repo(&mut store, &req, false, false, id(1), 1), Err(RepoError::GitInitFailed));
    assert_eq!(store.len(), 0);
    let r = init_repo(&mut store, &req, false, true, id(1), 1).unwrap();
    assert_eq!(r.path, "/home/me/fresh");
    assert_eq!(r.name, "fresh");
    assert_eq!(store.len(), 1);
}

#[test]
fn init_target_path_joins() {
    assert_eq!(init_target_path("/a", "b"), "/a/b");
    assert_eq!(init_target_path("/a/", "b"), "/a/b");
    assert_eq!(init_target_path("", "b"), "b");
}
