use gitg::cap_commit_ids;
use gitg::discover_ancestry;
use gitg::drain;
use gitg::BranchTip;
use gitg::CommitId;
use gitg::GitStructureService;
use gitg::WatchAction;
use gitg::WatchLoop;
use gitg::WatchMessage;

fn cid(b: u8) -> CommitId {
    CommitId::from_bytes(vec![b])
}

#[test]
fn unwatch_all_with_zero_watches_is_noop() {
    let mut service: GitStructureService<()> = GitStructureService::new(());
    let drained = service.unwatch_all();
    assert_eq!(drained.len(), 0);
    assert_eq!(service.branch_infos().len(), 0);
    assert_eq!(service.commit_infos().len(), 0);
    let drained_again = service.unwatch_all();
    assert_eq!(drained_again.len(), 0);
}

#[test]
fn watch_then_unwatch_all_drains_in_order() {
    let mut service: GitStructureService<()> = GitStructureService::new(());
    let h1 = service.watch(String::from("a"));
    let h2 = service.watch(String::from("b"));
    assert_ne!(h1, h2);
    let drained = service.unwatch_all();
    assert_eq!(drained.len(), 2);
    assert_eq!(drained[0].handle, h1);
    assert_eq!(drained[0].path, "a");
    assert_eq!(drained[1].handle, h2);
    assert_eq!(drained[1].path, "b");
    let none_left = service.unwatch_all();
    assert_eq!(none_left.len(), 0);
}

#[test]
fn drain_stops_on_shutdown_without_events() {
    let (forwarded, stopped) = drain(vec![WatchMessage::Shutdown]);
    assert_eq!(forwarded.len(), 0);
    assert!(stopped);
}

#[test]
fn drain_processes_queued_events_before_stopping() {
    let msgs = vec![
        WatchMessage::Change(String::from("created a")),
        WatchMessage::Change(String::from("changed b")),
        WatchMessage::Shutdown,
        WatchMessage::Change(String::from("late c")),
    ];
    let (forwarded, stopped) = drain(msgs);
    assert!(stopped);
    assert_eq!(
        forwarded,
        vec![
            WatchMessage::Change(String::from("created a")),
            WatchMessage::Change(String::from("changed b")),
        ]
    );
}

#[test]
fn drain_without_shutdown_processes_everything_and_keeps_running() {
    let msgs = vec![
        WatchMessage::Change(String::from("one")),
        WatchMessage::TransportError(String::from("broken pipe")),
        WatchMessage::Change(String::from("two")),
    ];
    let (forwarded, stopped) = drain(msgs);
    assert!(!stopped);
    assert_eq!(
        forwarded,
        vec![
            WatchMessage::Change(String::from("one")),
            WatchMessage::Change(String::from("two")),
        ]
    );
}

#[test]
fn step_forwards_ignores_and_stops() {
    let mut state = WatchLoop::new();
    assert_eq!(
        state.step(&WatchMessage::Change(String::from("x"))),
        WatchAction::Forward
    );
    assert_eq!(
        state.step(&WatchMessage::TransportError(String::from("e"))),
        WatchAction::Ignore
    );
    assert_eq!(state.step(&WatchMessage::Shutdown), WatchAction::Stop);
    assert_eq!(
        state.step(&WatchMessage::Change(String::from("y"))),
        WatchAction::Stop
    );
}

#[test]
fn ancestry_discovery_records_tips_and_parents() {
    let tips = vec![
        BranchTip {
            id: cid(1),
            parents: vec![cid(2), cid(3)],
        },
        BranchTip {
            id: cid(4),
            parents: vec![cid(2)],
        },
    ];
    let (ids, hierarchy) = discover_ancestry(&tips);
    assert!(ids.contains(&cid(1)));
    assert!(ids.contains(&cid(2)));
    assert!(ids.contains(&cid(3)));
    assert!(ids.contains(&cid(4)));
    assert!(!ids.contains(&cid(9)));
    assert!(hierarchy.contains_key(&cid(1)));
    assert!(hierarchy.contains_key(&cid(4)));
    let parents = hierarchy.parents_of(&cid(1)).unwrap();
    assert_eq!(parents, &vec![cid(2), cid(3)]);
    assert!(hierarchy.parents_of(&cid(2)).is_none());
}

#[test]
fn converging_branch_tips_are_visited_once() {
    let tips = vec![
        BranchTip {
            id: cid(1),
            parents: vec![cid(2)],
        },
        BranchTip {
            id: cid(2),
            parents: vec![cid(3)],
        },
        BranchTip {
            id: cid(1),
            parents: vec![cid(9)],
        },
    ];
    let (ids, hierarchy) = discover_ancestry(&tips);
    // the second tip was already seen as a parent of the first: skipped
    assert!(!hierarchy.contains_key(&cid(2)));
    assert!(!ids.contains(&cid(3)));
    // the third tip repeats the first: skipped, the recorded parents stay
    assert_eq!(hierarchy.parents_of(&cid(1)).unwrap(), &vec![cid(2)]);
    assert!(!ids.contains(&cid(9)));
}

#[test]
fn every_ancestry_key_is_in_the_id_set() {
    let tips = vec![
        BranchTip {
            id: cid(1),
            parents: vec![cid(2), cid(3)],
        },
        BranchTip {
            id: cid(3),
            parents: vec![cid(4)],
        },
        BranchTip {
            id: cid(5),
            parents: vec![],
        },
    ];
    let (ids, hierarchy) = discover_ancestry(&tips);
    // every key of the table is in the id set
    for tip in &tips {
        if hierarchy.contains_key(&tip.id) {
            assert!(ids.contains(&tip.id));
        }
    }
    // the third-listed tip was already seen as a parent of the first:
    // it is no key, yet its identifier is in the set
    assert!(!hierarchy.contains_key(&cid(3)));
    assert!(ids.contains(&cid(3)));
    assert!(hierarchy.contains_key(&cid(1)));
    assert!(hierarchy.contains_key(&cid(5)));
}

#[test]
fn cap_commit_ids_enforces_bound_and_keeps_order() {
    let mut ids: Vec<CommitId> = Vec::new();
    for i in 0..150u8 {
        ids.push(cid(i));
    }
    let capped = cap_commit_ids(ids, 100);
    assert_eq!(capped.len(), 100);
    assert_eq!(capped[0], cid(0));
    assert_eq!(capped[99], cid(99));
}

#[test]
fn cap_commit_ids_keeps_short_lists_whole() {
    let ids = vec![cid(5), cid(6)];
    let capped = cap_commit_ids(ids, 100);
    assert_eq!(capped, vec![cid(5), cid(6)]);
}

#[test]
fn snapshot_is_immutable_across_watch_operations() {
    let branches = vec![gitg::BranchInfo {
        name: String::from("main"),
        reference: String::from("refs/heads/main"),
        top_commit: cid(1),
        top_commit_message: String::from("tip"),
    }];
    let commits = vec![gitg::CommitInfo {
        id: cid(1),
        author: String::from("someone"),
        time: 7,
        message: String::from("tip"),
    }];
    let tips = vec![BranchTip {
        id: cid(1),
        parents: vec![cid(2)],
    }];
    let mut service = GitStructureService::assemble((), Some(branches), &tips, commits);
    let branch_name = service.branch_infos()[0].name.clone();
    let commit_count = service.commit_infos().len();
    let _handle = service.watch(String::from("."));
    let _drained = service.unwatch_all();
    assert_eq!(service.branch_infos().len(), 1);
    assert_eq!(service.branch_infos()[0].name, branch_name);
    assert_eq!(service.commit_infos().len(), commit_count);
    assert_eq!(service.commit_infos()[0].id, cid(1));
    assert!(service.id_table().contains(&cid(1)));
    assert!(service.id_table().contains(&cid(2)));
}

#[test]
fn failed_branch_listing_degrades_to_zero_branches() {
    let tips: Vec<BranchTip> = Vec::new();
    let service = GitStructureService::<()>::assemble((), None, &tips, Vec::new());
    assert_eq!(service.branch_infos().len(), 0);
    assert_eq!(service.commit_infos().len(), 0);
}
