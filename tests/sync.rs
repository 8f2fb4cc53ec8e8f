use nb_rs::config::Config;
use nb_rs::folder::Folder;
use nb_rs::note::Note;
use nb_rs::sync::{GitCommand, GitPlan, SetupSyncError, SyncManualError};

fn config(data_dir: &str) -> Config {
    Config {
        data_dir: data_dir.to_string(),
        editor: "true".to_string(),
        offline: true,
        is_test: true,
    }
}

fn commands(plan: &GitPlan) -> Vec<(Vec<String>, bool)> {
    plan.commands.iter().map(|c| (c.args.clone(), c.ignore_errors)).collect()
}

fn args(a: &[&str]) -> Vec<String> {
    a.iter().map(|s| s.to_string()).collect()
}

#[test]
fn walk_goes_up_to_data_dir() {
    let cfg = config("/data");
    let folder = Folder::new("/data/project", "sub");
    assert_eq!(folder.sync_walk(&cfg), vec!["/data/project/sub", "/data/project"]);
    let root = Folder::new("/data", ".");
    assert!(root.sync_walk(&cfg).is_empty());
    let outside = Folder::new("/elsewhere", "x");
    assert!(outside.sync_walk(&cfg).is_empty());
    let trailing = config("/home/u/.nb-rs/");
    assert_eq!(Folder::new("/home/u/.nb-rs/", "a").sync_walk(&trailing), vec!["/home/u/.nb-rs/a"]);
}

#[test]
fn sync_note_in_repository() {
    let cfg = config("/data");
    let note = Note { path: "/data/project/sub".to_string(), name: "x.md".to_string() };
    let folder = Folder::from_note(&note);
    assert!(folder.sync_exists(&cfg, &vec![false, true]));
    let plan = folder.sync_note(&note, &cfg, &vec![false, true]).unwrap();
    assert_eq!(plan.dir, "/data/project");
    assert_eq!(
        commands(&plan),
        vec![
            (args(&["add", "sub/x.md"]), false),
            (args(&["commit", "-m", "[nb-rs] Edit: x.md"]), true),
            (args(&["push"]), false),
        ]
    );
}

#[test]
fn sync_note_keeps_path_order() {
    let cfg = config("/data");
    let note = Note { path: "/data/p/a/b".to_string(), name: "x.md".to_string() };
    let folder = Folder::from_note(&note);
    let plan = folder.sync_note(&note, &cfg, &vec![false, false, true]).unwrap();
    assert_eq!(plan.dir, "/data/p");
    assert_eq!(plan.commands[0].args, args(&["add", "a/b/x.md"]));
    let here = folder.sync_note(&note, &cfg, &vec![true, true, true]).unwrap();
    assert_eq!(here.dir, "/data/p/a/b");
    assert_eq!(here.commands[0].args, args(&["add", "x.md"]));
}

#[test]
fn sync_note_without_repository_is_nothing() {
    let cfg = config("/data");
    let note = Note { path: "/data/a".to_string(), name: "x.md".to_string() };
    let folder = Folder::from_note(&note);
    assert!(!folder.sync_exists(&cfg, &vec![false]));
    assert!(folder.sync_note(&note, &cfg, &vec![false]).is_none());
    assert!(folder.sync_note(&note, &cfg, &Vec::new()).is_none());
    let top = Note { path: "/data".to_string(), name: "x.md".to_string() };
    assert!(Folder::from_note(&top).sync_note(&top, &cfg, &vec![true]).is_none());
}

#[test]
fn setup_plan_and_refusal() {
    let cfg = config("/data");
    let folder = Folder::new("/data", "project");
    let plan = folder.sync_setup(&cfg, "git@host:me/notes.git", "main", &vec![false]).unwrap();
    assert_eq!(plan.dir, "/data/project");
    assert_eq!(
        commands(&plan),
        vec![
            (args(&["init", "-b", "main"]), false),
            (args(&["remote", "add", "origin", "git@host:me/notes.git"]), false),
            (args(&["fetch", "origin"]), false),
            (args(&["checkout", "-b", "main", "origin/main"]), false),
        ]
    );
    match folder.sync_setup(&cfg, "git@host:me/notes.git", "main", &vec![true]) {
        Err(SetupSyncError::SyncExists) => {}
        other => panic!("unexpected {other:?}"),
    }
    let nested = Folder::new("/data/project", "sub");
    assert!(matches!(
        nested.sync_setup(&cfg, "r", "b", &vec![false, true]),
        Err(SetupSyncError::SyncExists)
    ));
}

#[test]
fn manual_sync_plan_and_refusal() {
    let cfg = config("/data");
    let folder = Folder::new("/data/project", "sub");
    let plan = folder.sync_manual(&cfg, &vec![false, true]).unwrap();
    assert_eq!(plan.dir, "/data/project/sub");
    assert_eq!(
        commands(&plan),
        vec![
            (args(&["pull"]), false),
            (args(&["add", "-A"]), false),
            (args(&["commit", "-m", "[nb-rs] Manual Sync"]), true),
            (args(&["push"]), false),
        ]
    );
    assert!(matches!(
        folder.sync_manual(&cfg, &vec![false, false]),
        Err(SyncManualError::NoGitRepository)
    ));
}

#[test]
fn git_outcome_decides_on_failure() {
    let cmd = GitCommand { args: args(&["remote", "add", "origin", "url"]), ignore_errors: false };
    assert_eq!(cmd.command_line(), "remote add origin url");
    assert!(cmd.outcome(true, "", "").is_ok());
    match cmd.outcome(false, "out", "err") {
        Err(SetupSyncError::Git { command, err }) => {
            assert_eq!(command, "remote add origin url");
            assert_eq!(err, "Stdout: out\n\nStderr: err");
        }
        other => panic!("unexpected {other:?}"),
    }
    let lenient = GitCommand { args: args(&["commit", "-m", "x"]), ignore_errors: true };
    assert!(lenient.outcome(false, "nothing to commit", "").is_ok());
}
