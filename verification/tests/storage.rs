use appendfile::fileops::{is_cross_device_rename_error, move_file, MoveStep, RenameError};
use appendfile::storage::{
    config_root, load_saved_target, run_with_target, target_file_path, ConfigEnv, DirListing,
    RunStep, SavedTargetRead,
};

fn env(root: Option<&str>, xdg: Option<&str>, home: Option<&str>) -> ConfigEnv {
    ConfigEnv {
        root_override: root.map(|s| s.to_string()),
        xdg_config_home: xdg.map(|s| s.to_string()),
        home: home.map(|s| s.to_string()),
    }
}

#[test]
fn round_trips_saved_target_in_isolated_config_root() {
    let config_root = "/tmp/appendfile-storage-test";
    let target = "/tmp/remembered-target";
    let e = env(Some(config_root), None, None);
    let (mut run, step) = run_with_target("in.png".to_string(), "p".to_string(), target.to_string(), true, e);
    assert!(matches!(step, RunStep::CreateDir { .. }));
    let step = run.dir_created(Ok(()));
    match step {
        RunStep::CreateDir { path } => assert_eq!(path, "/tmp/appendfile-storage-test/appendfile"),
        _ => panic!("expected the config folder"),
    }
    let (file, contents) = match run.dir_created(Ok(())) {
        RunStep::WriteFile { path, contents } => (path, contents),
        _ => panic!("expected the target to be saved"),
    };
    assert_eq!(file, "/tmp/appendfile-storage-test/appendfile/target");
    let loaded = load_saved_target(&file, SavedTargetRead::Contents(contents))
        .expect("failed to load target")
        .expect("expected saved target");
    assert_eq!(loaded, target);
}

#[test]
fn returns_none_for_missing_saved_target() {
    let file = target_file_path(&env(Some("/tmp/none"), None, None)).unwrap();
    let loaded = load_saved_target(&file, SavedTargetRead::Missing).expect("failed to load target");
    assert!(loaded.is_none());
}

#[test]
fn load_saved_target_trims_and_reports() {
    assert_eq!(load_saved_target("f", SavedTargetRead::Contents("  /a b \n".to_string())), Ok(Some("/a b".to_string())));
    assert_eq!(load_saved_target("f", SavedTargetRead::Contents(" \n".to_string())), Ok(None));
    assert_eq!(
        load_saved_target("/c/appendfile/target", SavedTargetRead::Failed("denied".to_string())),
        Err("failed to read saved target from /c/appendfile/target: denied".to_string())
    );
}

#[test]
fn config_root_order() {
    assert_eq!(config_root(&env(Some("/o"), Some("/x"), Some("/h"))), Ok("/o".to_string()));
    assert_eq!(config_root(&env(None, Some("/x"), Some("/h"))), Ok("/x".to_string()));
    assert_eq!(config_root(&env(None, Some(""), Some("/h"))), Ok("/h/.config".to_string()));
    assert_eq!(config_root(&env(None, None, Some("/h/"))), Ok("/h/.config".to_string()));
    assert_eq!(
        config_root(&env(None, None, Some(""))),
        Err("could not determine config directory (XDG_CONFIG_HOME or HOME)".to_string())
    );
    assert_eq!(target_file_path(&env(None, Some("/x"), None)), Ok("/x/appendfile/target".to_string()));
}

#[test]
fn run_without_persist_lists_and_moves() {
    let (mut run, step) = run_with_target("/in/a.PNG".to_string(), "ayca".to_string(), "/t".to_string(), false, env(None, None, None));
    match step {
        RunStep::CreateDir { path } => assert_eq!(path, "/t"),
        _ => panic!("expected the target folder"),
    }
    match run.dir_created(Ok(())) {
        RunStep::ListDir { path } => assert_eq!(path, "/t"),
        _ => panic!("expected a listing"),
    }
    let listing = DirListing::Names(vec!["ayca2.jpg".to_string(), "notes.txt".to_string()]);
    match run.dir_listed(listing) {
        RunStep::MoveFile { from, to } => {
            assert_eq!(from, "/in/a.PNG");
            assert_eq!(to, "/t/ayca3.PNG");
        }
        _ => panic!("expected a move"),
    }
    match run.file_moved(Ok(())) {
        RunStep::Done(Ok(out)) => assert_eq!(out, "/t/ayca3.PNG"),
        _ => panic!("expected success"),
    }
}

#[test]
fn run_reports_each_failure() {
    let e = || env(Some("/c"), None, None);
    let (mut run, _) = run_with_target("a.png".into(), "p".into(), "/t".into(), true, e());
    match run.dir_created(Err("denied".into())) {
        RunStep::Done(Err(m)) => assert_eq!(m, "failed to create target directory /t: denied"),
        _ => panic!(),
    }
    let (mut run, _) = run_with_target("a.png".into(), "p".into(), "/t".into(), true, env(None, None, None));
    match run.dir_created(Ok(())) {
        RunStep::Done(Err(m)) => assert_eq!(m, "could not determine config directory (XDG_CONFIG_HOME or HOME)"),
        _ => panic!(),
    }
    let (mut run, _) = run_with_target("a.png".into(), "p".into(), "/t".into(), true, e());
    run.dir_created(Ok(()));
    match run.dir_created(Err("full".into())) {
        RunStep::Done(Err(m)) => assert_eq!(m, "failed to create config directory /c/appendfile: full"),
        _ => panic!(),
    }
    let (mut run, _) = run_with_target("a.png".into(), "p".into(), "/t".into(), true, e());
    run.dir_created(Ok(()));
    run.dir_created(Ok(()));
    match run.file_written(Err("ro".into())) {
        RunStep::Done(Err(m)) => assert_eq!(m, "failed to save target to /c/appendfile/target: ro"),
        _ => panic!(),
    }
    let (mut run, _) = run_with_target("a".into(), "p".into(), "/t".into(), true, e());
    run.dir_created(Ok(()));
    run.dir_created(Ok(()));
    match run.file_written(Ok(())) {
        RunStep::Done(Err(m)) => assert_eq!(m, "input file has no valid extension: a"),
        _ => panic!(),
    }
    let (mut run, _) = run_with_target("a.png".into(), "p".into(), "/t".into(), false, e());
    run.dir_created(Ok(()));
    match run.dir_listed(DirListing::OpenFailed("gone".into())) {
        RunStep::Done(Err(m)) => assert_eq!(m, "failed to read target directory /t: gone"),
        _ => panic!(),
    }
    let (mut run, _) = run_with_target("a.png".into(), "p".into(), "/t".into(), false, e());
    run.dir_created(Ok(()));
    match run.dir_listed(DirListing::EntryFailed("io".into())) {
        RunStep::Done(Err(m)) => assert_eq!(m, "failed to read entry in target directory /t: io"),
        _ => panic!(),
    }
    let (mut run, _) = run_with_target("a.png".into(), "p".into(), "/t".into(), false, e());
    run.dir_created(Ok(()));
    run.dir_listed(DirListing::Names(Vec::new()));
    match run.file_moved(Err("busy".into())) {
        RunStep::Done(Err(m)) => assert_eq!(m, "busy"),
        _ => panic!(),
    }
}

#[test]
fn move_file_falls_back_to_copy_across_devices() {
    assert!(is_cross_device_rename_error(Some(18)));
    assert!(!is_cross_device_rename_error(Some(2)));
    assert!(!is_cross_device_rename_error(None));

    let (mut m, step) = move_file("/a/x", "/b/y");
    assert!(matches!(step, MoveStep::Rename { .. }));
    assert!(matches!(m.renamed(Ok(())), MoveStep::Done(Ok(()))));

    let (mut m, _) = move_file("/a/x", "/b/y");
    let cross = RenameError { raw_os_error: Some(18), message: "cross".into() };
    match m.renamed(Err(cross)) {
        MoveStep::Copy { from, to } => {
            assert_eq!(from, "/a/x");
            assert_eq!(to, "/b/y");
        }
        _ => panic!(),
    }
    match m.copied(Ok(())) {
        MoveStep::RemoveFile { path } => assert_eq!(path, "/a/x"),
        _ => panic!(),
    }
    match m.source_removed(Err("busy".into())) {
        MoveStep::Done(Err(e)) => assert_eq!(e, "failed to remove original file /a/x after copy to /b/y: busy"),
        _ => panic!(),
    }

    let (mut m, _) = move_file("/a/x", "/b/y");
    m.renamed(Err(RenameError { raw_os_error: Some(18), message: "cross".into() }));
    match m.copied(Err("nospace".into())) {
        MoveStep::Done(Err(e)) => assert_eq!(e, "failed to move /a/x to /b/y: rename failed (cross), copy failed (nospace)"),
        _ => panic!(),
    }

    let (mut m, _) = move_file("/a/x", "/b/y");
    match m.renamed(Err(RenameError { raw_os_error: Some(2), message: "missing".into() })) {
        MoveStep::Done(Err(e)) => assert_eq!(e, "failed to move /a/x to /b/y: missing"),
        _ => panic!(),
    }
}
