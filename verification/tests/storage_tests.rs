use palcommand::archive::{forward_slashes, make_targz, untar_gz};
use palcommand::config_store::{
    legacy_secret_files, settings_path, stored_secret, AppSettings, KEYRING_SERVICE,
    KEY_ADMIN_PASSWORD, KEY_FTP_PASSWORD,
};
use palcommand::gitrepo::{
    git_args, launch_failure_message, nothing_to_commit, origin_op, run_failure_message,
    run_failure_text, setup_ops, GitOp,
};
use palcommand::ordering::{order_by_number_desc, order_by_text_desc, sorted_unique_keys, str_less};
use palcommand::savecheck::{is_valid_palworld_sav, looks_like_null_garbage};

fn files() -> Vec<(String, Vec<u8>)> {
    vec![
        ("Level.sav".to_string(), vec![1, 2, 3, 0, 255]),
        ("LevelMeta.sav".to_string(), vec![]),
        ("Players/0000000000000000000000000000000A.sav".to_string(), vec![9; 3000]),
        (
            "Players/a-very-long-directory-name-that-goes-on-and-on-and-on/and-more-and-more-and-more/file.sav"
                .to_string(),
            vec![4; 700],
        ),
    ]
}

#[test]
fn a_snapshot_reads_back_as_it_was_made() {
    let made = make_targz(&files()).unwrap();
    assert_eq!(&made[0..2], &[0x1f, 0x8b]);
    let back = untar_gz(&made).unwrap();
    assert_eq!(back, files());
}

#[test]
fn an_empty_snapshot_reads_back_empty() {
    let made = make_targz(&[]).unwrap();
    assert!(untar_gz(&made).unwrap().is_empty());
}

#[test]
fn archives_refuse_escaping_paths_and_garbage() {
    assert!(make_targz(&[("../evil".to_string(), vec![1])]).is_err());
    assert!(make_targz(&[("/abs".to_string(), vec![1])]).is_err());
    assert!(untar_gz(b"definitely not gzip").is_err());
    assert_eq!(forward_slashes("Players\\A.sav"), "Players/A.sav");
}

#[test]
fn settings_and_legacy_paths() {
    assert_eq!(settings_path("/cfg"), "/cfg/settings.json");
    assert_eq!(settings_path("/cfg/"), "/cfg/settings.json");
    let legacy = legacy_secret_files("/cfg");
    assert_eq!(legacy[0], (KEY_FTP_PASSWORD, "/cfg/auto/sftp.sec".to_string()));
    assert_eq!(legacy[1], (KEY_ADMIN_PASSWORD, "/cfg/auto/admin.sec".to_string()));
    assert_eq!(KEYRING_SERVICE, "com.luibots.palcommand");
    assert_eq!(stored_secret(Some("x".into())), Some("x".to_string()));
    assert_eq!(stored_secret(Some(String::new())), None);
    assert_eq!(stored_secret(None), None);
}

#[test]
fn default_settings() {
    let s = AppSettings::default();
    assert_eq!(s.sftp_port, 22);
    assert_eq!(s.save_games_path, "Pal/Saved/SaveGames/0");
    assert_eq!(s.rcon_port, 25575);
    assert_eq!(s.git_branch, "main");
    assert_eq!(s.backup_retention, 20);
    assert_eq!(s.schedule_minutes, 60);
    assert!(!s.rest_enabled && !s.rcon_enabled && !s.stop_before_backup && !s.schedule_enabled);
    assert!(s.sftp_host.is_empty() && s.config_dir.is_empty() && s.repo_remote.is_empty());
}

#[test]
fn git_operations() {
    assert_eq!(git_args(&GitOp::Init), vec!["init"]);
    assert_eq!(git_args(&GitOp::CheckoutBranch("main".into())), vec!["checkout", "-B", "main"]);
    assert_eq!(git_args(&GitOp::GetOriginUrl), vec!["remote", "get-url", "origin"]);
    assert_eq!(git_args(&GitOp::StageAll), vec!["add", "-A"]);
    assert_eq!(git_args(&GitOp::Status), vec!["status", "--porcelain"]);
    assert_eq!(
        git_args(&GitOp::Commit("backup x".into())),
        vec![
            "-c",
            "user.email=palcommand@local",
            "-c",
            "user.name=PAL COMMAND",
            "commit",
            "-m",
            "backup x"
        ]
    );
    assert_eq!(git_args(&GitOp::Push("main".into())), vec!["push", "-u", "origin", "main"]);
    assert_eq!(
        git_args(&origin_op(true, "git@x:y.git")),
        vec!["remote", "set-url", "origin", "git@x:y.git"]
    );
    assert_eq!(
        git_args(&origin_op(false, "git@x:y.git")),
        vec!["remote", "add", "origin", "git@x:y.git"]
    );
    assert!(setup_ops(true, "main").is_empty());
    assert_eq!(setup_ops(false, "main").len(), 2);
    assert!(nothing_to_commit(" \n"));
    assert!(!nothing_to_commit(" M config/Engine.ini\n"));
    let args: Vec<String> = vec!["push".into(), "-u".into(), "origin".into(), "main".into()];
    assert_eq!(
        run_failure_message(&args, b"  fatal: no remote\n"),
        "git push -u origin main failed: fatal: no remote"
    );
    assert_eq!(run_failure_text(&[], " x "), "git  failed: x");
    assert_eq!(
        run_failure_message(&args[..1], &[0xff, b'!']),
        "git push failed: \u{FFFD}!"
    );
    assert_eq!(
        launch_failure_message("No such file"),
        "git not found or failed to launch: No such file"
    );
}

#[test]
fn text_order_and_sorting() {
    assert!(str_less("Admin", "Death"));
    assert!(str_less("Ab", "Abc"));
    assert!(!str_less("Abc", "Abc"));
    assert!(str_less("Z", "a"));
    let keys = sorted_unique_keys(&[
        ("b".to_string(), "1".to_string()),
        ("a".to_string(), "2".to_string()),
        ("b".to_string(), "3".to_string()),
    ]);
    assert_eq!(keys, vec!["a".to_string(), "b".to_string()]);
    assert_eq!(order_by_number_desc(&[1, 3, 2, 3]), vec![1, 3, 2, 0]);
    assert_eq!(
        order_by_text_desc(&["b".to_string(), "c".to_string(), "b".to_string()]),
        vec![1, 0, 2]
    );
}

#[test]
fn save_checks() {
    let mut good = vec![0u8; 8];
    good.extend_from_slice(b"PlZ1");
    assert!(is_valid_palworld_sav(&good));
    assert!(!is_valid_palworld_sav(&good[..11]));
    assert!(!is_valid_palworld_sav(&[0u8; 12]));
    assert!(looks_like_null_garbage(&[]));
    assert!(looks_like_null_garbage(&[0u8; 100]));
    let mut mostly = vec![0u8; 91];
    mostly.extend_from_slice(&[1u8; 9]);
    assert!(looks_like_null_garbage(&mostly));
    let mut ninety = vec![0u8; 90];
    ninety.extend_from_slice(&[1u8; 10]);
    assert!(!looks_like_null_garbage(&ninety));
    let mut big = vec![1u8; 4096];
    big.extend_from_slice(&[0u8; 100000]);
    assert!(!looks_like_null_garbage(&big));
}
