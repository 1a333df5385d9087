use dotdeploy::actions::{ModuleAction, RunExec};
use dotdeploy::backup::{backup_record, needs_content, restore_plan, BackupError, FileMetadata, Restore};
use dotdeploy::errors::join_errors;

fn meta(is_symlink: bool) -> FileMetadata {
    FileMetadata {
        uid: Some(1000),
        gid: Some(100),
        permissions: Some(33206),
        is_symlink,
        symlink_source: if is_symlink { Some("/src/foo.txt".to_string()) } else { None },
        checksum: if is_symlink { None } else { Some("abc".to_string()) },
    }
}

#[test]
fn test_file_backup() {
    let path = "/home/u/foo.txt".to_string();
    let m = meta(false);
    assert!(needs_content(&m));
    let b = backup_record(&path, &m, Some(b"Hello World!".to_vec())).unwrap();
    assert_eq!(b.file_type, "regular");
    assert_eq!(b.owner, "1000:100");
    assert_eq!(b.permissions, Some(33206));
    assert_eq!(format!("{:o}", b.permissions.unwrap()), "100666");
    match restore_plan(b).unwrap() {
        Restore::Regular { content, uid, gid, permissions } => {
            assert_eq!(content, b"Hello World!".to_vec());
            assert_eq!((uid, gid, permissions), (1000, 100, 33206));
        }
        _ => panic!("expected a regular file"),
    }

    let m = meta(true);
    assert!(!needs_content(&m));
    let b = backup_record(&path, &m, None).unwrap();
    assert_eq!(b.file_type, "link");
    assert_eq!(b.link_source.as_deref(), Some("/src/foo.txt"));
    assert!(matches!(restore_plan(b).unwrap(), Restore::Link { uid: 1000, gid: 100, .. }));
}

#[test]
fn backup_needs_full_metadata() {
    let path = "/p".to_string();
    let mut m = meta(false);
    m.uid = None;
    assert_eq!(backup_record(&path, &m, Some(vec![])).unwrap_err(), BackupError::NoOwner);
    let mut m = meta(false);
    m.gid = None;
    assert_eq!(backup_record(&path, &m, Some(vec![])).unwrap_err(), BackupError::NoGroup);
    let mut m = meta(false);
    m.permissions = None;
    assert_eq!(backup_record(&path, &m, Some(vec![])).unwrap_err(), BackupError::NoPermissions);
    let mut m = meta(false);
    m.checksum = None;
    assert_eq!(backup_record(&path, &m, Some(vec![])).unwrap_err(), BackupError::NoChecksum);
    let mut b = backup_record(&path, &meta(true), None).unwrap();
    b.owner = "root:wheel".to_string();
    assert_eq!(restore_plan(b).unwrap_err(), BackupError::InvalidOwner);
}

#[test]
fn joining_results() {
    let ok: Vec<Result<u32, String>> = vec![Ok(1), Ok(2)];
    assert_eq!(join_errors(ok), Ok(vec![1, 2]));
    let mixed: Vec<Result<u32, String>> = vec![Ok(1), Err("a".to_string()), Ok(3), Err("b".to_string())];
    assert_eq!(join_errors(mixed), Err(vec!["a".to_string(), "b".to_string()]));
}

#[test]
fn actions_command_lines() {
    let a = ModuleAction::from_config("echo hi".to_string(), None, String::new(), None, None, None);
    assert_eq!(a.run, RunExec::Code("echo hi".to_string()));
    assert_eq!(a.command_line(), ("sh".to_string(), vec!["-c".to_string(), "echo hi".to_string()]));
    let a = ModuleAction::from_config(
        "~/bin/x".to_string(),
        Some(true),
        "/home/u/bin/x".to_string(),
        Some(true),
        Some(vec!["1".to_string()]),
        None,
    );
    assert_eq!(a.command_line(), ("sudo".to_string(), vec!["/home/u/bin/x".to_string(), "1".to_string()]));
    let a = ModuleAction::from_config("/x".to_string(), Some(true), "/x".to_string(), None, None, None);
    assert_eq!(a.command_line(), ("/x".to_string(), vec![]));
}

#[test]
fn console_logger_writes() {
    dotdeploy::console::bla();
}

#[test]
fn restore_gives_back_any_owner() {
    for (uid, gid) in [(0u32, 0u32), (7, 4294967295), (4294967295, 12)] {
        let m = FileMetadata {
            uid: Some(uid),
            gid: Some(gid),
            permissions: None,
            is_symlink: true,
            symlink_source: Some("/dots/vimrc".to_string()),
            checksum: None,
        };
        let b = backup_record(&"/home/u/.vimrc".to_string(), &m, None).unwrap();
        match restore_plan(b).unwrap() {
            Restore::Link { source, uid: u, gid: g } => {
                assert_eq!(source, "/dots/vimrc");
                assert_eq!((u, g), (uid, gid));
            }
            other => panic!("expected a link, got {other:?}"),
        }
    }
}
