use syncfolder::events::{is_stop_signal, stop_event, translate, ChangeEvent, MirrorStep};
use syncfolder::executor::{RemoveOutcome, SourceKind, TargetFs};
use syncfolder::paths::{relativize, to_target_path, SegPath};
use syncfolder::session::{
    decide_loop, run_event, run_step, LoopDirective, MirrorConfig, StepReport,
};

fn path(segs: &[&str]) -> SegPath {
    SegPath {
        segs: segs.iter().map(|s| s.as_bytes().to_vec()).collect(),
    }
}

#[test]
fn round_trip_through_target_root() {
    let root = path(&["tmp", "src"]);
    let rel = path(&["a", "b.txt"]);
    let joined = to_target_path(&rel, &root);
    assert!(joined.path_eq(&path(&["tmp", "src", "a", "b.txt"])));
    let (back, in_root) = relativize(&joined, &root);
    assert!(in_root);
    assert!(back.path_eq(&rel));
}

#[test]
fn relativize_falls_back_outside_root() {
    let root = path(&["tmp", "src"]);
    let stray = path(&["var", "log", "x"]);
    let (rel, in_root) = relativize(&stray, &root);
    assert!(!in_root);
    assert!(rel.path_eq(&stray));
}

#[test]
fn target_for_maps_under_target_root() {
    let cfg = MirrorConfig {
        source_root: path(&["tmp", "src"]),
        target_root: path(&["tmp", "dst"]),
        initial_sync: true,
    };
    let (target, in_root) = cfg.target_for(&path(&["tmp", "src", "a", "b.txt"]));
    assert!(in_root);
    assert!(target.path_eq(&path(&["tmp", "dst", "a", "b.txt"])));
}

#[test]
fn rename_removes_old_before_new() {
    let steps = translate(ChangeEvent::Renamed(
        path(&["tmp", "src", "old.txt"]),
        path(&["tmp", "src", "new.txt"]),
    ));
    assert_eq!(steps.len(), 2);
    match &steps[0] {
        MirrorStep::Remove(p) => assert!(p.path_eq(&path(&["tmp", "src", "old.txt"]))),
        _ => panic!("first rename step must be the removal of the old target"),
    }
    match &steps[1] {
        MirrorStep::Materialize(p) => assert!(p.path_eq(&path(&["tmp", "src", "new.txt"]))),
        _ => panic!("second rename step must materialize the new target"),
    }
}

#[test]
fn create_modify_remove_translate_to_one_step() {
    let p = || path(&["tmp", "src", "f"]);
    let created = translate(ChangeEvent::Created(p()));
    assert!(matches!(&created[..], [MirrorStep::Materialize(_)]));
    let modified = translate(ChangeEvent::Modified(p()));
    assert!(matches!(&modified[..], [MirrorStep::Materialize(_)]));
    let removed = translate(ChangeEvent::Removed(p()));
    assert!(matches!(&removed[..], [MirrorStep::Remove(_)]));
}

#[test]
fn hints_and_rescan_translate_to_nothing() {
    let p = || path(&["tmp", "src", "f"]);
    assert!(translate(ChangeEvent::NoticeWrite(p())).is_empty());
    assert!(translate(ChangeEvent::NoticeRemove(p())).is_empty());
    assert!(translate(ChangeEvent::Chmod(p())).is_empty());
    assert!(translate(ChangeEvent::Rescan).is_empty());
}

#[test]
fn stop_sentinel_is_recognized_and_inert() {
    let sentinel = stop_event();
    assert!(is_stop_signal(&sentinel));
    assert!(translate(sentinel).is_empty());
    let other = ChangeEvent::ErrorSignal(b"watch overflow".to_vec());
    assert!(!is_stop_signal(&other));
    assert!(translate(other).is_empty());
}

#[test]
fn materialize_is_idempotent() {
    let mut fs = TargetFs::new();
    let rel = path(&["a", "b.txt"]);
    fs.materialize(&rel, SourceKind::File(b"hi".to_vec()));
    let first = fs.get_file(&rel).expect("file after first materialize").clone();
    fs.materialize(&rel, SourceKind::File(b"hi".to_vec()));
    let second = fs.get_file(&rel).expect("file after second materialize").clone();
    assert_eq!(first, b"hi".to_vec());
    assert_eq!(first, second);
}

#[test]
fn materialize_overwrites_existing_content() {
    let mut fs = TargetFs::new();
    let rel = path(&["a", "b.txt"]);
    fs.materialize(&rel, SourceKind::File(b"one".to_vec()));
    fs.materialize(&rel, SourceKind::File(b"two".to_vec()));
    assert_eq!(fs.get_file(&rel).unwrap(), &b"two".to_vec());
}

#[test]
fn create_then_remove_leaves_nothing() {
    let mut fs = TargetFs::new();
    let rel = path(&["a", "b.txt"]);
    fs.materialize(&rel, SourceKind::File(b"hi".to_vec()));
    let outcome = fs.remove(&rel);
    assert_eq!(outcome, RemoveOutcome::RemovedFile);
    assert!(fs.get_file(&rel).is_none());
}

#[test]
fn materialize_creates_missing_parents() {
    let mut fs = TargetFs::new();
    let rel = path(&["a", "b", "c.txt"]);
    fs.materialize(&rel, SourceKind::File(b"x".to_vec()));
    assert!(fs.has_dir(&path(&["a"])));
    assert!(fs.has_dir(&path(&["a", "b"])));
    assert!(!fs.has_dir(&rel));
    assert!(fs.get_file(&rel).is_some());
}

#[test]
fn materialize_directory_creates_it_with_parents() {
    let mut fs = TargetFs::new();
    fs.materialize(&path(&["a", "b"]), SourceKind::Directory);
    assert!(fs.has_dir(&path(&["a"])));
    assert!(fs.has_dir(&path(&["a", "b"])));
}

#[test]
fn materialize_of_vanished_source_is_a_noop() {
    let mut fs = TargetFs::new();
    let rel = path(&["gone.txt"]);
    fs.materialize(&rel, SourceKind::Missing);
    assert!(fs.get_file(&rel).is_none());
    assert!(!fs.has_dir(&rel));
}

#[test]
fn remove_of_absent_path_reports_not_found() {
    let mut fs = TargetFs::new();
    assert_eq!(fs.remove(&path(&["nope"])), RemoveOutcome::NotFound);
}

#[test]
fn remove_of_non_empty_directory_fails_and_cascades_nowhere() {
    let mut fs = TargetFs::new();
    let file = path(&["a", "b.txt"]);
    fs.materialize(&file, SourceKind::File(b"hi".to_vec()));
    let outcome = fs.remove(&path(&["a"]));
    assert_eq!(outcome, RemoveOutcome::DirectoryNotEmpty);
    assert!(fs.has_dir(&path(&["a"])));
    assert_eq!(fs.get_file(&file).unwrap(), &b"hi".to_vec());
}

#[test]
fn remove_of_empty_directory_succeeds() {
    let mut fs = TargetFs::new();
    fs.materialize(&path(&["a"]), SourceKind::Directory);
    assert_eq!(fs.remove(&path(&["a"])), RemoveOutcome::RemovedDirectory);
    assert!(!fs.has_dir(&path(&["a"])));
}

#[test]
fn rename_to_same_target_keeps_new_content() {
    let mut fs = TargetFs::new();
    let root = path(&["tmp", "src"]);
    let abs = path(&["tmp", "src", "same.txt"]);
    fs.materialize(&path(&["same.txt"]), SourceKind::File(b"old".to_vec()));
    let reports = run_event(
        &mut fs,
        ChangeEvent::Renamed(abs.clone_path(), abs),
        &root,
        SourceKind::File(b"new".to_vec()),
    );
    assert_eq!(reports.len(), 2);
    assert_eq!(reports[0], StepReport::Removed(RemoveOutcome::RemovedFile));
    assert_eq!(reports[1], StepReport::Materialized);
    assert_eq!(fs.get_file(&path(&["same.txt"])).unwrap(), &b"new".to_vec());
}

#[test]
fn translated_steps_drive_the_mirror_in_order() {
    let root = path(&["tmp", "src"]);
    let mut fs = TargetFs::new();
    fs.materialize(&path(&["old.txt"]), SourceKind::File(b"old".to_vec()));
    let steps = translate(ChangeEvent::Renamed(
        path(&["tmp", "src", "old.txt"]),
        path(&["tmp", "src", "new.txt"]),
    ));
    let mut reports = Vec::new();
    for step in &steps {
        let observed = match step {
            MirrorStep::Materialize(_) => SourceKind::File(b"new".to_vec()),
            MirrorStep::Remove(_) => SourceKind::Missing,
        };
        let (rep, in_root) = run_step(&mut fs, step, &root, observed);
        assert!(in_root);
        reports.push(rep);
    }
    assert_eq!(
        reports,
        vec![
            StepReport::Removed(RemoveOutcome::RemovedFile),
            StepReport::Materialized,
        ]
    );
    assert!(fs.get_file(&path(&["old.txt"])).is_none());
    assert_eq!(fs.get_file(&path(&["new.txt"])).unwrap(), &b"new".to_vec());
}

#[test]
fn loop_policy_orders_shutdown_first() {
    assert_eq!(decide_loop(true, true), LoopDirective::Stop);
    assert_eq!(decide_loop(true, false), LoopDirective::Stop);
    assert_eq!(decide_loop(false, false), LoopDirective::ChannelClosed);
    assert_eq!(decide_loop(false, true), LoopDirective::Dispatch);
}

#[test]
fn end_to_end_scenario() {
    let cfg = MirrorConfig {
        source_root: path(&["tmp", "src"]),
        target_root: path(&["tmp", "dst"]),
        initial_sync: true,
    };
    let mut fs = TargetFs::new();

    // create /tmp/src/a/b.txt with content "hi"
    run_event(
        &mut fs,
        ChangeEvent::Created(path(&["tmp", "src", "a", "b.txt"])),
        &cfg.source_root,
        SourceKind::File(b"hi".to_vec()),
    );
    let (target, in_root) = cfg.target_for(&path(&["tmp", "src", "a", "b.txt"]));
    assert!(in_root);
    assert!(target.path_eq(&path(&["tmp", "dst", "a", "b.txt"])));
    assert_eq!(fs.get_file(&path(&["a", "b.txt"])).unwrap(), &b"hi".to_vec());

    // delete /tmp/src/a/b.txt
    run_event(
        &mut fs,
        ChangeEvent::Removed(path(&["tmp", "src", "a", "b.txt"])),
        &cfg.source_root,
        SourceKind::Missing,
    );
    assert!(fs.get_file(&path(&["a", "b.txt"])).is_none());

    // rename /tmp/src/a to /tmp/src/c
    let reports = run_event(
        &mut fs,
        ChangeEvent::Renamed(path(&["tmp", "src", "a"]), path(&["tmp", "src", "c"])),
        &cfg.source_root,
        SourceKind::Directory,
    );
    assert_eq!(reports[0], StepReport::Removed(RemoveOutcome::RemovedDirectory));
    assert!(!fs.has_dir(&path(&["a"])));
    assert!(fs.has_dir(&path(&["c"])));
    assert!(fs.get_file(&path(&["c", "b.txt"])).is_none());
}
