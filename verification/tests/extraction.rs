use microvm::extract::{
    create_deterministic_filesystem, extract_layers, file_entry, is_likely_base_file,
    should_skip_path, ArchiveMember, FsNode, NodeKind, DETERMINISTIC_TIMESTAMP,
};
use microvm::file_tree::{FileEntry, FileTree};
use std::collections::VecDeque;

fn member(path: &str, content: &str) -> ArchiveMember {
    ArchiveMember {
        path: path.to_string(),
        content: content.as_bytes().to_vec(),
        mode: Some(0o600),
        uid: Some(7),
        gid: Some(8),
        is_dir: false,
        is_symlink: false,
        link_name: None,
    }
}

fn paths(tree: &FileTree) -> Vec<&str> {
    tree.entries.iter().map(|entry| entry.path.as_str()).collect()
}

#[test]
fn runtime_paths_are_skipped() {
    for path in [".dockerenv", "/.dockerenv", "/proc/1/maps", "/sys/x", "a/dev/null", "/run/", "/tmp/y"] {
        assert!(should_skip_path(path), "{path}");
    }
    for path in ["", "proc/1", "/procs/x", "/etc/tmp", "dockerenv", "/dev"] {
        assert!(!should_skip_path(path), "{path}");
    }
}

#[test]
fn system_paths_are_likely_from_the_base() {
    for path in [
        "/bin/sh", "/sbin/init", "/lib/x", "/lib64/x", "/usr/bin/env", "/usr/sbin/x", "/usr/lib/x",
        "/etc/passwd", "/etc/passwd-", "/etc/group", "/etc/shadow", "/etc/ld.so.cache", "/etc/ssl/x",
        "/etc/ca-certificates/x",
    ] {
        assert!(is_likely_base_file(path), "{path}");
    }
    for path in ["bin/sh", "usr/lib/x", "etc/passwd", "lib64/ld.so"] {
        assert!(is_likely_base_file(path), "{path}");
    }
    for path in ["bin", "/bin", "/usr/local/bin/x", "/app/bin/x", "app/bin/x", "/etc/hosts", "", "/"] {
        assert!(!is_likely_base_file(path), "{path}");
    }
}

#[test]
fn member_becomes_an_entry_with_the_fixed_time() {
    assert_eq!(
        file_entry(member("/a", "x")),
        FileEntry {
            path: "/a".to_string(),
            content: b"x".to_vec(),
            mode: 0o600,
            uid: 7,
            gid: 8,
            mtime: 1640995200,
            is_dir: false,
            is_symlink: false,
            symlink_target: None,
        }
    );
}

#[test]
fn header_without_mode_and_owner_gets_defaults() {
    let entry = file_entry(ArchiveMember {
        mode: None,
        uid: None,
        gid: Some(0x1_0000_0005),
        link_name: Some("elsewhere".to_string()),
        ..member("/a", "")
    });
    assert_eq!(entry.mode, 0o644);
    assert_eq!(entry.uid, 0);
    assert_eq!(entry.gid, 5);
    assert_eq!(entry.symlink_target, None);
}

#[test]
fn members_are_sorted_into_two_trees() {
    let members = VecDeque::from(vec![
        member("/usr/bin/b", ""),
        member("/app/z", ""),
        member("/proc/x", ""),
        member("/bin/a", ""),
        member("/app/a", ""),
        member("/app", ""),
    ]);
    let (base, additional) = extract_layers(members);
    assert_eq!(paths(&base), vec!["/bin/a", "/usr/bin/b"]);
    assert_eq!(paths(&additional), vec!["/app", "/app/a", "/app/z"]);
}

#[test]
fn exported_system_path_goes_to_the_base() {
    let members = VecDeque::from(vec![member("usr/bin/env", "x")]);
    let (base, additional) = extract_layers(members);
    assert_eq!(paths(&base), vec!["usr/bin/env"]);
    assert!(additional.entries.is_empty());
}

#[test]
fn later_member_of_a_path_replaces_the_earlier() {
    let members = VecDeque::from(vec![member("/a", "old"), member("/b", "b"), member("/a", "new")]);
    let (base, additional) = extract_layers(members);
    assert!(base.entries.is_empty());
    assert_eq!(paths(&additional), vec!["/a", "/b"]);
    assert_eq!(additional.entries[0].content, b"new".to_vec());
}

#[test]
fn paths_are_ordered_by_code_points() {
    let mut tree = FileTree::new();
    for path in ["b", "\u{10000}", "a/b", "\u{ff01}", "a", "Z", "a-b", "é"] {
        tree.insert(file_entry(member(path, "")));
    }
    let mut sorted = vec!["b", "\u{10000}", "a/b", "\u{ff01}", "a", "Z", "a-b", "é"];
    sorted.sort();
    assert_eq!(paths(&tree), sorted);
}

#[test]
fn order_of_the_archive_does_not_matter() {
    let forward = VecDeque::from(vec![member("/a", "1"), member("/b", "2"), member("/c", "3")]);
    let backward = VecDeque::from(vec![member("/c", "3"), member("/b", "2"), member("/a", "1")]);
    let (_, first) = extract_layers(forward);
    let (_, second) = extract_layers(backward);
    assert_eq!(
        create_deterministic_filesystem(&first),
        create_deterministic_filesystem(&second)
    );
}

#[test]
fn every_extracted_file_has_the_fixed_time() {
    let members = VecDeque::from(vec![member("/bin/a", ""), member("/b", "")]);
    let (base, additional) = extract_layers(members);
    for entry in base.entries.iter().chain(additional.entries.iter()) {
        assert_eq!(entry.mtime, DETERMINISTIC_TIMESTAMP);
    }
}

#[test]
fn filesystem_has_directories_links_and_files() {
    let members = VecDeque::from(vec![
        ArchiveMember { is_dir: true, mode: Some(0o755), ..member("/d", "") },
        member("//d/file", "text"),
        ArchiveMember {
            is_symlink: true,
            link_name: Some("file".to_string()),
            ..member("/d/link", "")
        },
        ArchiveMember { is_symlink: true, ..member("/d/lost", "") },
    ]);
    let (_, files) = extract_layers(members);
    let target = "file".to_string();
    let content = b"text".to_vec();
    let node = |path: &str, kind, mode| FsNode {
        relative_path: path.to_string(),
        kind,
        mode,
        mtime: 1640995200,
    };
    assert_eq!(
        create_deterministic_filesystem(&files),
        vec![
            node("d/file", NodeKind::Regular(&content), Some(0o600)),
            node("d", NodeKind::Directory, Some(0o755)),
            node("d/link", NodeKind::Symlink(Some(&target)), None),
            node("d/lost", NodeKind::Symlink(None), Some(0o600)),
        ]
    );
}
