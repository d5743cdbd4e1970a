use gitg::CommitId;
use gitg::GitStructureService;
use gitg::LoadError;
use gitg::MAX_COMMIT_WALK;

fn make_commit(repo: &git2::Repository, msg: &str, seconds: i64) -> git2::Oid {
    let time = git2::Time::new(seconds, 0);
    let sig = git2::Signature::new("Tester", "tester@example.com", &time).unwrap();
    let mut index = repo.index().unwrap();
    let tree_id = index.write_tree().unwrap();
    let tree = repo.find_tree(tree_id).unwrap();
    let parents = match repo.head() {
        Ok(head) => vec![head.peel_to_commit().unwrap()],
        Err(_) => Vec::new(),
    };
    let parent_refs: Vec<&git2::Commit> = parents.iter().collect();
    repo.commit(Some("HEAD"), &sig, &sig, msg, &tree, &parent_refs)
        .unwrap()
}

#[test]
fn empty_repository_still_constructs_with_zero_branches() {
    let dir = tempfile::tempdir().unwrap();
    git2::Repository::init(dir.path()).unwrap();
    let service = GitStructureService::from_path(dir.path().to_str().unwrap()).unwrap();
    assert_eq!(service.branch_infos().len(), 0);
    assert_eq!(service.commit_infos().len(), 0);
}

#[test]
fn invalid_path_is_fatal_at_construction() {
    let dir = tempfile::tempdir().unwrap();
    let missing = dir.path().join("not-a-repository");
    let result = GitStructureService::from_path(missing.to_str().unwrap());
    match result {
        Err(LoadError::RepositoryOpen(message)) => assert!(!message.is_empty()),
        Ok(_) => panic!("expected opening to fail"),
    }
}

#[test]
fn small_repository_snapshot() {
    let dir = tempfile::tempdir().unwrap();
    let repo = git2::Repository::init(dir.path()).unwrap();
    let first = make_commit(&repo, "first", 946684800);
    let second = make_commit(&repo, "second", 946684900);
    let service = GitStructureService::from_path(dir.path().to_str().unwrap()).unwrap();

    let branches = service.branch_infos();
    assert_eq!(branches.len(), 1);
    assert_eq!(
        branches[0].top_commit.as_bytes().as_slice(),
        second.as_bytes()
    );
    assert_eq!(branches[0].top_commit_message, "second");
    assert!(branches[0].reference.starts_with("refs/heads/"));

    let commits = service.commit_infos();
    assert_eq!(commits.len(), 2);
    // newest first
    assert_eq!(commits[0].id.as_bytes().as_slice(), second.as_bytes());
    assert_eq!(commits[1].id.as_bytes().as_slice(), first.as_bytes());
    assert_eq!(commits[0].author, "Tester");
    assert_eq!(commits[0].message, "second");
    assert_eq!(commits[0].time, 946684900);
    assert_eq!(commits[1].message, "first");

    let tip = CommitId::from_bytes(second.as_bytes().to_vec());
    let parent = CommitId::from_bytes(first.as_bytes().to_vec());
    assert!(service.id_table().contains(&tip));
    assert!(service.id_table().contains(&parent));
    let recorded = service.hierarchy_table().parents_of(&tip).unwrap();
    assert_eq!(recorded.len(), 1);
    assert_eq!(recorded[0], parent);
    assert!(service.hierarchy_table().parents_of(&parent).is_none());
}

#[test]
fn snapshot_does_not_reload_on_repository_changes() {
    let dir = tempfile::tempdir().unwrap();
    let repo = git2::Repository::init(dir.path()).unwrap();
    make_commit(&repo, "first", 946684800);
    let service = GitStructureService::from_path(dir.path().to_str().unwrap()).unwrap();
    assert_eq!(service.commit_infos().len(), 1);
    // intervening filesystem activity: a new commit after construction
    make_commit(&repo, "second", 946684900);
    assert_eq!(service.commit_infos().len(), 1);
    assert_eq!(service.commit_infos()[0].message, "first");
}

#[test]
fn history_walk_is_bounded_and_newest_first() {
    let dir = tempfile::tempdir().unwrap();
    let repo = git2::Repository::init(dir.path()).unwrap();
    let total = MAX_COMMIT_WALK + 5;
    let mut last: Option<git2::Oid> = None;
    for i in 0..total {
        let msg = format!("commit {}", i);
        last = Some(make_commit(&repo, &msg, 946684800 + i as i64));
    }
    let service = GitStructureService::from_path(dir.path().to_str().unwrap()).unwrap();
    let commits = service.commit_infos();
    assert_eq!(commits.len(), MAX_COMMIT_WALK);
    assert_eq!(
        commits[0].id.as_bytes().as_slice(),
        last.unwrap().as_bytes()
    );
    let expected = format!("commit {}", total - 1);
    assert_eq!(commits[0].message, expected);
}
