use qfinder::error::AppError;
use qfinder::fs_tree::{check_listable, dir_entry, sort_entries, DirEntryDto};
use qfinder::platform::{
    drive_letters, drive_root, ensure_exists, home_root, icloud_root, is_compat_junction, is_hidden,
    keep_volume, list_roots, mac_system_root, mount_bases, path_to_string, removable_root, unix_system_root,
    volume_root, RootCandidate, RootKind, RootPlatform, COMPAT_JUNCTION, HIDDEN_OR_SYSTEM,
};
use qfinder::task::{now_ms, TaskEvent, TaskKind, TaskManager, TaskStatus};

#[test]
fn one_task_at_a_time() {
    let mut m = TaskManager::new();
    assert!(m.current().is_none());
    let t = m.start_with("id-1".into(), TaskKind::Copy, "复制 a 到 b".into(), 42).unwrap();
    assert_eq!((t.id.as_str(), t.kind, t.started_at_ms, t.status), ("id-1", TaskKind::Copy, 42, TaskStatus::Running));
    let cur = m.current().unwrap();
    assert_eq!((cur.id.as_str(), cur.description.as_str()), ("id-1", "复制 a 到 b"));
    // A second request while one runs is refused and changes nothing.
    assert!(matches!(m.start_with("id-2".into(), TaskKind::Delete, "x".into(), 43), Err(AppError::BusyTask)));
    assert!(matches!(m.start(TaskKind::Move, "y".into()), Err(AppError::BusyTask)));
    assert_eq!(m.current().unwrap().id, "id-1");
    match m.finish(t, &Ok(())) {
        TaskEvent::Finished(info) => {
            assert_eq!((info.id.as_str(), info.status, info.started_at_ms), ("id-1", TaskStatus::Done, 42));
        }
        _ => panic!("expected a finished event"),
    }
    assert!(m.current().is_none());
    let t2 = m.start_with("id-3".into(), TaskKind::Rename, "r".into(), 44).unwrap();
    match m.finish(t2, &Err(AppError::Permission("/root".into()))) {
        TaskEvent::Failed { id, code, message } => {
            assert_eq!((id.as_str(), code.as_str(), message.as_str()), ("id-3", "PERMISSION", "permission denied: /root"));
        }
        _ => panic!("expected a failed event"),
    }
    assert!(m.current().is_none());
}

#[test]
fn started_tasks_get_fresh_ids_and_the_time() {
    let mut m = TaskManager::new();
    let before = now_ms();
    let t = m.start(TaskKind::Delete, "删除 /x".into()).unwrap();
    let after = now_ms();
    assert_eq!(t.id.len(), 36);
    for (i, c) in t.id.chars().enumerate() {
        if [8, 13, 18, 23].contains(&i) {
            assert_eq!(c, '-');
        } else {
            assert!(c.is_ascii_digit() || ('a'..='f').contains(&c), "{}", t.id);
        }
    }
    assert_eq!(t.id.as_bytes()[14], b'4');
    assert!(b"89ab".contains(&t.id.as_bytes()[19]));
    assert!(before <= t.started_at_ms && t.started_at_ms <= after);
    assert!(before > 1_600_000_000_000);
    m.finish(t, &Ok(()));
    let t2 = m.start(TaskKind::Delete, "again".into()).unwrap();
    assert_eq!(m.current().unwrap().id, t2.id);
    let mut m2 = TaskManager::new();
    let other = m2.start(TaskKind::Copy, "c".into()).unwrap();
    assert_ne!(other.id, t2.id);
}

#[test]
fn listing_checks() {
    assert!(check_listable("/d", true, true).is_ok());
    assert!(matches!(check_listable("/d", false, false), Err(AppError::NotFound(p)) if p == "/d"));
    assert!(matches!(check_listable("/f", true, false), Err(AppError::IllegalTarget(m)) if m == "not a directory: /f"));
    assert!(ensure_exists("/e", true).is_ok());
    assert!(matches!(ensure_exists("/e", false), Err(AppError::NotFound(p)) if p == "/e"));
    assert_eq!(path_to_string("/用户/文档"), "/用户/文档");
}

#[test]
fn hidden_entries() {
    assert!(is_hidden(".git", None));
    assert!(!is_hidden("git", None));
    assert!(!is_hidden("", None));
    assert!(is_hidden("a", Some(0x2)));
    assert!(is_hidden("a", Some(0x4)));
    assert!(!is_hidden("a", Some(0x20)));
    assert_eq!(HIDDEN_OR_SYSTEM, 0x6);
    assert!(is_compat_junction(Some(COMPAT_JUNCTION)));
    assert!(is_compat_junction(Some(0x416)));
    assert!(!is_compat_junction(Some(0x402)));
    assert!(!is_compat_junction(None));
}

#[test]
fn entries_of_a_listing() {
    let e = dir_entry("a.txt".into(), "/d/a.txt".into(), false, 12, None, false).unwrap();
    assert_eq!((e.name.as_str(), e.path.as_str(), e.is_dir, e.is_hidden, e.size), ("a.txt", "/d/a.txt", false, false, Some(12)));
    let d = dir_entry("sub".into(), "/d/sub".into(), true, 4096, None, false).unwrap();
    assert_eq!(d.size, None);
    assert!(dir_entry(".hidden".into(), "/d/.hidden".into(), false, 1, None, false).is_none());
    let h = dir_entry(".hidden".into(), "/d/.hidden".into(), false, 1, None, true).unwrap();
    assert!(h.is_hidden);
    // Compatibility junctions stay out even when hidden entries are shown.
    assert!(dir_entry("Application Data".into(), "C:\\x".into(), true, 0, Some(0x416), true).is_none());
}

fn entry(name: &str, is_dir: bool) -> DirEntryDto {
    DirEntryDto { name: name.into(), path: format!("/d/{}", name), is_dir, is_hidden: false, size: None }
}

#[test]
fn directories_first_then_names_ignoring_case() {
    let input = vec![
        entry("b.txt", false),
        entry("Zeta", true),
        entry("A.txt", false),
        entry("alpha", true),
        entry("c.TXT", false),
    ];
    let names: Vec<String> = sort_entries(input).into_iter().map(|e| e.name).collect();
    assert_eq!(names, vec!["alpha", "Zeta", "A.txt", "b.txt", "c.TXT"]);
}

#[test]
fn equal_names_keep_their_order() {
    let mut first = entry("Readme", false);
    first.path = "/one".into();
    let mut second = entry("README", false);
    second.path = "/two".into();
    let out = sort_entries(vec![entry("z", false), first, second, entry("a", false)]);
    let paths: Vec<&str> = out.iter().map(|e| e.path.as_str()).collect();
    assert_eq!(paths, vec!["/d/a", "/one", "/two", "/d/z"]);
    assert!(sort_entries(vec![]).is_empty());
}

#[test]
fn roots() {
    let h = home_root("/home/me", Some("me".into()));
    assert_eq!((h.label.as_str(), h.path.as_str(), h.kind), ("me", "/home/me", RootKind::Home));
    let h2 = home_root("/", None);
    assert_eq!(h2.label, "/");
    assert_eq!(drive_letters(0b101), vec!['A', 'C']);
    assert_eq!(drive_letters(0), Vec::<char>::new());
    assert_eq!(drive_letters(u32::MAX).len(), 26);
    assert_eq!(drive_letters(1 << 25), vec!['Z']);
    assert_eq!(drive_letters(1 << 26), Vec::<char>::new());
    let c = drive_root('C');
    assert_eq!((c.label.as_str(), c.path.as_str(), c.kind), ("C:", "C:\\", RootKind::Drive));
    let m = mac_system_root();
    assert_eq!((m.label.as_str(), m.path.as_str(), m.kind), ("Macintosh HD", "/", RootKind::SystemRoot));
    let u = unix_system_root();
    assert_eq!((u.label.as_str(), u.path.as_str()), ("/", "/"));
    let i = icloud_root("/Users/me/Library/Mobile Documents/com~apple~CloudDocs");
    assert_eq!((i.label.as_str(), i.kind), ("iCloud Drive", RootKind::ICloud));
    let v = volume_root("Backup", "/Volumes/Backup");
    assert_eq!((v.label.as_str(), v.path.as_str(), v.kind), ("Backup", "/Volumes/Backup", RootKind::Volume));
    let r = removable_root("usb", "/media/me/usb");
    assert_eq!((r.label.as_str(), r.kind), ("usb", RootKind::Removable));
    assert!(keep_volume(true, false));
    assert!(!keep_volume(true, true));
    assert!(!keep_volume(false, false));
    assert_eq!(mount_bases("me"), vec!["/media/me", "/run/media/me", "/mnt", "/media"]);
}

fn cand(name: &str, path: &str, is_dir: bool, links_to_root: bool) -> RootCandidate {
    RootCandidate { name: name.into(), path: path.into(), is_dir, links_to_root }
}

fn views(v: Vec<qfinder::platform::RootEntry>) -> Vec<(String, String, RootKind)> {
    v.into_iter().map(|e| (e.label, e.path, e.kind)).collect()
}

#[test]
fn root_lists_per_platform() {
    let home = Some(("/Users/me".to_string(), Some("me".to_string())));
    let vols = vec![cand("Macintosh HD", "/Volumes/Macintosh HD", true, true), cand("Backup", "/Volumes/Backup", true, false), cand("file", "/Volumes/file", false, false)];
    let mac = views(list_roots(RootPlatform::MacOs, home.clone(), &vec![], Some(("/Users/me/Library/Mobile Documents/com~apple~CloudDocs".into(), true)), &vols, &vec![]));
    assert_eq!(
        mac,
        vec![
            ("me".to_string(), "/Users/me".to_string(), RootKind::Home),
            ("Macintosh HD".to_string(), "/".to_string(), RootKind::SystemRoot),
            ("iCloud Drive".to_string(), "/Users/me/Library/Mobile Documents/com~apple~CloudDocs".to_string(), RootKind::ICloud),
            ("Backup".to_string(), "/Volumes/Backup".to_string(), RootKind::Volume),
        ]
    );
    let no_icloud = views(list_roots(RootPlatform::MacOs, None, &vec![], Some(("/x".into(), false)), &vec![], &vec![]));
    assert_eq!(no_icloud, vec![("Macintosh HD".to_string(), "/".to_string(), RootKind::SystemRoot)]);
    let media = vec![cand("usb", "/media/me/usb", true, false), cand("f", "/mnt/f", false, false), cand("link", "/mnt/link", true, true)];
    let linux = views(list_roots(RootPlatform::OtherUnix, Some(("/home/me".into(), None)), &vec![], None, &vec![], &media));
    assert_eq!(
        linux,
        vec![
            ("/home/me".to_string(), "/home/me".to_string(), RootKind::Home),
            ("/".to_string(), "/".to_string(), RootKind::SystemRoot),
            ("usb".to_string(), "/media/me/usb".to_string(), RootKind::Removable),
            ("link".to_string(), "/mnt/link".to_string(), RootKind::Removable),
        ]
    );
    let win = views(list_roots(RootPlatform::Windows, None, &vec![('C', true), ('D', false), ('E', true)], None, &vec![], &vec![]));
    assert_eq!(
        win,
        vec![
            ("C:".to_string(), "C:\\".to_string(), RootKind::Drive),
            ("E:".to_string(), "E:\\".to_string(), RootKind::Drive),
        ]
    );
    assert!(list_roots(RootPlatform::Other, None, &vec![('C', true)], None, &vec![], &vec![]).is_empty());
}
