use qfinder::error::{AppError, IoErrorKind};
use qfinder::ops::{
    after_move_rename, check_delete, check_rename, check_transfer, is_self_or_descendant, join_dst, merge_entry,
    parent_or_err, parent_result, parse_strategy, rename_target, transfer_steps, validate_new_name,
    ConflictStrategy, MergeAction, RenameOutcome, TransferFacts, TransferKind, TransferStep,
};

fn facts() -> TransferFacts {
    TransferFacts {
        src_exists: true,
        dst_dir_exists: true,
        dst_dir_is_dir: true,
        src_is_dir: false,
        inside_source: false,
        target_exists: false,
        target_is_dir: false,
    }
}

fn code_and_message(e: &AppError) -> (String, String) {
    (e.code().to_string(), e.message())
}

#[test]
fn every_error_has_its_code_and_message() {
    let cases: Vec<(AppError, &str, &str)> = vec![
        (AppError::Io("disk".into()), "IO", "io error: disk"),
        (AppError::Permission("/x".into()), "PERMISSION", "permission denied: /x"),
        (AppError::NotFound("/y".into()), "NOT_FOUND", "not found: /y"),
        (AppError::AlreadyExists("/z".into()), "ALREADY_EXISTS", "already exists: /z"),
        (AppError::Conflict { path: "/c".into(), is_dir: true }, "CONFLICT", "conflict at: /c"),
        (AppError::IllegalTarget("bad".into()), "ILLEGAL_TARGET", "illegal target: bad"),
        (AppError::BusyTask, "BUSY_TASK", "a background task is running"),
        (AppError::Internal("oops".into()), "INTERNAL", "internal error: oops"),
    ];
    for (e, code, msg) in cases {
        assert_eq!(code_and_message(&e), (code.to_string(), msg.to_string()));
    }
}

#[test]
fn io_errors_map_by_kind() {
    assert!(matches!(AppError::from_io(IoErrorKind::NotFound, "a".into()), AppError::NotFound(s) if s == "a"));
    assert!(matches!(AppError::from_io(IoErrorKind::PermissionDenied, "b".into()), AppError::Permission(s) if s == "b"));
    assert!(matches!(AppError::from_io(IoErrorKind::AlreadyExists, "c".into()), AppError::AlreadyExists(s) if s == "c"));
    assert!(matches!(AppError::from_io(IoErrorKind::Other, "d".into()), AppError::Io(s) if s == "d"));
}

#[test]
fn strategies() {
    assert_eq!(parse_strategy(None).unwrap(), ConflictStrategy::Refuse);
    assert_eq!(parse_strategy(Some("merge".into())).unwrap(), ConflictStrategy::Merge);
    assert_eq!(parse_strategy(Some("replace".into())).unwrap(), ConflictStrategy::Replace);
    match parse_strategy(Some("Merge".into())) {
        Err(AppError::IllegalTarget(m)) => assert_eq!(m, "unknown conflict strategy: Merge"),
        other => panic!("unexpected {:?}", other),
    }
}

#[test]
fn parents_and_targets() {
    assert_eq!(parent_or_err("/a/b").unwrap(), "/a");
    match parent_or_err("/") {
        Err(AppError::IllegalTarget(m)) => assert_eq!(m, "no parent for: /"),
        other => panic!("unexpected {:?}", other),
    }
    assert_eq!(parent_result("/q", Some("/".into())).unwrap(), "/");
    assert!(matches!(parent_result("/", None), Err(AppError::IllegalTarget(_))));
    assert_eq!(join_dst("/dst", "/src/file.txt").unwrap(), "/dst/file.txt");
    match join_dst("/dst", "/src/..") {
        Err(AppError::IllegalTarget(m)) => assert_eq!(m, "no file name: /src/.."),
        other => panic!("unexpected {:?}", other),
    }
    assert_eq!(rename_target("/a/old.txt", "new.txt").unwrap(), "/a/new.txt");
}

#[test]
fn descendants() {
    assert!(is_self_or_descendant("/a/b", "/a/b"));
    assert!(is_self_or_descendant("/a/b", "/a/b/c"));
    assert!(!is_self_or_descendant("/a/b", "/a/bc"));
    assert!(!is_self_or_descendant("/a/b", "/a"));
}

#[test]
fn new_names() {
    assert!(validate_new_name("ok.txt").is_ok());
    for bad in ["", "a/b", "a\\b"] {
        match validate_new_name(bad) {
            Err(AppError::IllegalTarget(m)) => assert_eq!(m, format!("invalid name: {}", bad)),
            other => panic!("unexpected {:?}", other),
        }
    }
}

#[test]
fn rename_checks_in_order() {
    let ok = check_rename("/d/a.txt", "b.txt", true, Ok("/d/b.txt".into()), false, Some("a.txt".into())).unwrap();
    assert_eq!((ok.from.as_str(), ok.to.as_str(), ok.description.as_str()), ("/d/a.txt", "/d/b.txt", "重命名 a.txt 到 b.txt"));
    let no_name = check_rename("/", "b", true, Ok("/b".into()), false, None).unwrap();
    assert_eq!(no_name.description, "重命名 / 到 b");
    assert!(matches!(
        check_rename("/d/a", "x/y", false, Ok("/d/x".into()), true, None),
        Err(AppError::IllegalTarget(m)) if m == "invalid name: x/y"
    ));
    assert!(matches!(
        check_rename("/d/a", "b", false, Ok("/d/b".into()), true, None),
        Err(AppError::NotFound(p)) if p == "/d/a"
    ));
    assert!(matches!(
        check_rename("/", "b", true, Err(AppError::IllegalTarget("no parent for: /".into())), false, None),
        Err(AppError::IllegalTarget(m)) if m == "no parent for: /"
    ));
    assert!(matches!(
        check_rename("/d/a", "b", true, Ok("/d/b".into()), true, None),
        Err(AppError::AlreadyExists(p)) if p == "/d/b"
    ));
}

#[test]
fn transfer_checks_in_order() {
    let plan = check_transfer(TransferKind::Copy, "/s/f", "/d", None, Ok("/d/f".into()), facts()).unwrap();
    assert_eq!((plan.target.as_str(), plan.strategy, plan.description.as_str()), ("/d/f", ConflictStrategy::Refuse, "复制 /s/f 到 /d"));
    let plan = check_transfer(TransferKind::Move, "/s/f", "/d", Some("replace".into()), Ok("/d/f".into()), TransferFacts { target_exists: true, ..facts() }).unwrap();
    assert_eq!((plan.strategy, plan.description.as_str()), (ConflictStrategy::Replace, "移动 /s/f 到 /d"));

    let err = |kind, oc: Option<&str>, target: Result<&str, &str>, f: TransferFacts| {
        check_transfer(
            kind,
            "/s/f",
            "/d",
            oc.map(String::from),
            target.map(String::from).map_err(|m| AppError::IllegalTarget(m.into())),
            f,
        )
        .err()
        .map(|e| code_and_message(&e))
    };
    assert_eq!(err(TransferKind::Copy, None, Ok("/d/f"), TransferFacts { src_exists: false, ..facts() }), Some(("NOT_FOUND".into(), "not found: /s/f".into())));
    assert_eq!(err(TransferKind::Copy, None, Ok("/d/f"), TransferFacts { dst_dir_exists: false, ..facts() }), Some(("NOT_FOUND".into(), "not found: /d".into())));
    assert_eq!(err(TransferKind::Copy, None, Ok("/d/f"), TransferFacts { dst_dir_is_dir: false, ..facts() }), Some(("ILLEGAL_TARGET".into(), "illegal target: not a directory: /d".into())));
    assert_eq!(
        err(TransferKind::Move, None, Ok("/d/f"), TransferFacts { src_is_dir: true, inside_source: true, ..facts() }),
        Some(("ILLEGAL_TARGET".into(), "illegal target: cannot move/copy a directory into itself or its descendant".into()))
    );
    // A file whose directory lies below it is no error of this kind.
    assert_eq!(err(TransferKind::Move, None, Ok("/d/f"), TransferFacts { inside_source: true, ..facts() }), None);
    assert_eq!(err(TransferKind::Copy, None, Err("no file name: /s/f"), facts()), Some(("ILLEGAL_TARGET".into(), "illegal target: no file name: /s/f".into())));
    assert_eq!(err(TransferKind::Copy, Some("skip"), Ok("/d/f"), facts()), Some(("ILLEGAL_TARGET".into(), "illegal target: unknown conflict strategy: skip".into())));
    match check_transfer(TransferKind::Copy, "/s/f", "/d", None, Ok("/d/f".into()), TransferFacts { target_exists: true, target_is_dir: true, ..facts() }) {
        Err(AppError::Conflict { path, is_dir }) => assert_eq!((path.as_str(), is_dir), ("/d/f", true)),
        other => panic!("unexpected {:?}", other.err()),
    }
    assert_eq!(
        err(TransferKind::Copy, Some("merge"), Ok("/d/f"), TransferFacts { src_is_dir: true, target_exists: true, target_is_dir: false, ..facts() }),
        Some(("ILLEGAL_TARGET".into(), "illegal target: 合并仅适用于源与目标都为目录的场景".into()))
    );
    assert_eq!(err(TransferKind::Copy, Some("merge"), Ok("/d/f"), TransferFacts { src_is_dir: true, target_exists: true, target_is_dir: true, ..facts() }), None);
}

#[test]
fn steps_of_each_strategy() {
    assert_eq!(transfer_steps(TransferKind::Copy, ConflictStrategy::Refuse), vec![TransferStep::CopyTree]);
    assert_eq!(transfer_steps(TransferKind::Copy, ConflictStrategy::Replace), vec![TransferStep::RemoveTargetIfExists, TransferStep::CopyTree]);
    assert_eq!(transfer_steps(TransferKind::Copy, ConflictStrategy::Merge), vec![TransferStep::MergeTree]);
    assert_eq!(transfer_steps(TransferKind::Move, ConflictStrategy::Refuse), vec![TransferStep::RenameOrCopyAndRemove]);
    assert_eq!(transfer_steps(TransferKind::Move, ConflictStrategy::Replace), vec![TransferStep::RemoveTargetIfExists, TransferStep::RenameOrCopyAndRemove]);
    assert_eq!(transfer_steps(TransferKind::Move, ConflictStrategy::Merge), vec![TransferStep::MergeTree, TransferStep::RemoveSource]);
}

#[test]
fn merge_entries() {
    assert_eq!(merge_entry(true, true, true), MergeAction::Recurse);
    assert_eq!(merge_entry(true, false, true), MergeAction::CopyTree { remove_first: true });
    assert_eq!(merge_entry(true, false, false), MergeAction::CopyTree { remove_first: false });
    assert_eq!(merge_entry(false, true, true), MergeAction::CopyFile { remove_first: true });
    assert_eq!(merge_entry(false, false, false), MergeAction::CopyFile { remove_first: false });
}

#[test]
fn deletes() {
    assert_eq!(check_delete("/t/x", true).unwrap(), "删除 /t/x");
    assert!(matches!(check_delete("/t/x", false), Err(AppError::NotFound(p)) if p == "/t/x"));
}

#[test]
fn a_move_copies_only_across_devices() {
    assert_eq!(after_move_rename(RenameOutcome::Renamed).unwrap(), false);
    assert_eq!(after_move_rename(RenameOutcome::CrossesDevices).unwrap(), true);
    match after_move_rename(RenameOutcome::Failed { kind: IoErrorKind::PermissionDenied, text: "denied".into() }) {
        Err(AppError::Permission(m)) => assert_eq!(m, "denied"),
        other => panic!("unexpected {:?}", other),
    }
    assert!(matches!(
        after_move_rename(RenameOutcome::Failed { kind: IoErrorKind::Other, text: "x".into() }),
        Err(AppError::Io(_))
    ));
}
