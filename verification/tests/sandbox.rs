use mra::sandbox::{
    check_mount, plan_path, safe_path, starts_with, ExecOptions, ExecResult, SandboxError, Target,
};

fn path(parts: &[&str]) -> Vec<Vec<u8>> {
    parts.iter().map(|p| p.as_bytes().to_vec()).collect()
}

#[test]
fn virtual_sandbox_rejects_path_traversal() {
    let root = path(&["/", "tmp", "ws"]);
    let target = Target::Missing {
        parent: path(&["/", "tmp"]),
        file_name: Some(b"secret".to_vec()),
    };
    let err = safe_path(&root, target, "../secret").unwrap_err();
    assert!(matches!(err, SandboxError::PathTraversal(_)));
    assert_eq!(err.to_string(), "path traversal rejected: ../secret");
}

#[test]
fn nothing_is_planned_outside_the_root() {
    let root = path(&["/", "tmp", "ws"]);
    // "../newdir/f.txt": the nearest directory that exists is the one above.
    let err = plan_path(&root, path(&["/", "tmp"]), path(&["newdir", "f.txt"]), "../newdir/f.txt")
        .unwrap_err();
    assert_eq!(err.to_string(), "path traversal rejected: ../newdir/f.txt");
    let err = plan_path(&root, root.clone(), path(&["a", "..", "..", "b"]), "a/../../b")
        .unwrap_err();
    assert!(matches!(err, SandboxError::PathTraversal(at) if at == "a/../../b"));
    assert_eq!(
        plan_path(&root, root.clone(), path(&["a", "..b", "c.txt"]), "a/..b/c.txt").unwrap(),
        path(&["/", "tmp", "ws", "a", "..b", "c.txt"])
    );
    assert_eq!(plan_path(&root, root.clone(), path(&[]), "").unwrap(), root);
    // A sibling whose name begins like the root's.
    assert!(plan_path(&root, root.clone(), path(&["a", "..", "..", "ws2"]), "a/../../ws2").is_err());
}

#[test]
fn up_below_a_new_directory_leads_back() {
    let root = path(&["/", "tmp", "ws"]);
    assert_eq!(
        plan_path(&root, root.clone(), path(&["newdir", "..", "f.txt"]), "newdir/../f.txt").unwrap(),
        path(&["/", "tmp", "ws", "f.txt"])
    );
    assert_eq!(
        plan_path(&root, root.clone(), path(&["a", "b", "..", "c"]), "a/b/../c").unwrap(),
        path(&["/", "tmp", "ws", "a", "c"])
    );
    assert_eq!(
        plan_path(&root, root.clone(), path(&["a", "..", "..", "ws", "f"]), "a/../../ws/f").unwrap(),
        path(&["/", "tmp", "ws", "f"])
    );
    // Nothing lies above the root of the file system.
    assert_eq!(
        plan_path(&path(&["/"]), path(&["/"]), path(&["..", "f"]), "../f").unwrap(),
        path(&["/", "f"])
    );
}

#[test]
fn paths_inside_the_root_are_accepted() {
    let root = path(&["/", "tmp", "ws"]);
    let existing = Target::Existing(path(&["/", "tmp", "ws", "a", "b"]));
    assert_eq!(
        safe_path(&root, existing, "a/b").unwrap(),
        path(&["/", "tmp", "ws", "a", "b"])
    );
    let fresh = Target::Missing {
        parent: path(&["/", "tmp", "ws"]),
        file_name: Some(b"greet.txt".to_vec()),
    };
    assert_eq!(
        safe_path(&root, fresh, "greet.txt").unwrap(),
        path(&["/", "tmp", "ws", "greet.txt"])
    );
}

#[test]
fn sibling_with_a_longer_name_is_outside() {
    let root = path(&["/", "tmp", "ws"]);
    assert!(!starts_with(&path(&["/", "tmp", "ws2", "x"]), &root));
    assert!(!starts_with(&path(&["/", "tmp"]), &root));
    assert!(starts_with(&root, &root));
}

#[test]
fn path_without_a_name_is_refused() {
    let root = path(&["/", "tmp", "ws"]);
    let target = Target::Missing { parent: path(&["/", "tmp", "ws"]), file_name: None };
    let err = safe_path(&root, target, "x/..").unwrap_err();
    assert_eq!(err.to_string(), "path has no file name");
}

#[test]
fn mounts_stay_inside_the_root() {
    let root = path(&["/", "tmp", "ws"]);
    assert!(check_mount(&root, &path(&["/", "tmp", "ws", "sub"]), "sub/m").is_ok());
    let err = check_mount(&root, &path(&["/", "tmp"]), "../m").unwrap_err();
    assert!(matches!(err, SandboxError::PathTraversal(at) if at == "../m"));
}

#[test]
fn command_ended_by_a_signal_counts_as_minus_one() {
    let result = ExecResult::new("out".into(), "err".into(), None);
    assert_eq!(result.exit_code, -1);
    assert_eq!(ExecResult::new("".into(), "".into(), Some(3)).exit_code, 3);
    assert_eq!(SandboxError::Io("gone".into()).to_string(), "io error: gone");
}

#[test]
fn default_options_are_empty() {
    let options = ExecOptions::default();
    assert_eq!(options.env.len(), 0);
    assert!(options.stdin.is_none());
}
