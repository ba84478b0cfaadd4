//! Attributes and listings.

use pi_interface::listing::{describe, list_files_in_directory, FileKind};
use pi_interface::stat::{RemoteEntry, RemoteStat};

fn stat(perm: Option<u32>) -> RemoteStat {
    RemoteStat { size: Some(12), perm, mtime: Some(1700000000) }
}

fn entry(path: &str, perm: Option<u32>) -> RemoteEntry {
    RemoteEntry { path: path.to_string(), stat: stat(perm) }
}

#[test]
fn directories_and_files_are_told_by_their_mode() {
    assert!(stat(Some(0o040755)).is_dir());
    assert!(!stat(Some(0o040755)).is_file());
    assert!(stat(Some(0o100644)).is_file());
    assert!(!stat(Some(0o100644)).is_dir());
    assert!(stat(Some(0o040000)).is_dir());
    assert!(stat(Some(0o104755)).is_file());
    for other in [0o120777, 0o010644, 0o020644, 0o060644, 0o140755, 0o000644, 0o755] {
        assert!(!stat(Some(other)).is_dir());
        assert!(!stat(Some(other)).is_file());
    }
    assert!(!stat(None).is_dir());
    assert!(!stat(None).is_file());
}

#[test]
fn sizes_and_times_default_to_zero() {
    let bare = RemoteStat { size: None, perm: None, mtime: None };
    assert_eq!(bare.size_or_zero(), 0);
    assert_eq!(bare.mtime_or_zero(), 0);
    assert_eq!(stat(None).size_or_zero(), 12);
    assert_eq!(stat(None).mtime_or_zero(), 1700000000);
}

#[test]
fn kinds_of_entries() {
    let dir = stat(Some(0o040755));
    let file = stat(Some(0o100644));
    assert!(matches!(FileKind::classify("photos", &dir), FileKind::Directory));
    assert!(matches!(FileKind::classify("photos.d", &dir), FileKind::Directory));
    assert!(matches!(FileKind::classify("a.txt", &file), FileKind::Extension(e) if e == "txt"));
    assert!(matches!(FileKind::classify("A.TXT", &file), FileKind::Extension(e) if e == "txt"));
    assert!(matches!(FileKind::classify("x.tar.Gz", &file), FileKind::Extension(e) if e == "gz"));
    assert!(matches!(FileKind::classify("x.", &file), FileKind::Extension(e) if e.is_empty()));
    assert!(matches!(FileKind::classify("Makefile", &file), FileKind::Unknown));
    assert!(matches!(FileKind::classify(".profile", &file), FileKind::Unknown));
    assert!(matches!(FileKind::classify("l.lnk", &stat(Some(0o120777))), FileKind::Extension(e) if e == "lnk"));
    assert!(matches!(FileKind::classify("n", &stat(None)), FileKind::Unknown));
}

#[test]
fn labels_of_kinds() {
    assert_eq!(FileKind::Directory.label(), "Folder");
    assert_eq!(FileKind::Unknown.label(), "Unknown");
    assert_eq!(FileKind::Extension("rs".to_string()).label(), "rs");
}

#[test]
fn description_of_an_entry() {
    let info = describe(&entry("/home/pi/pi-interface/ada/Report.PDF", Some(0o100600))).unwrap();
    assert_eq!(info.name, "Report.PDF");
    assert_eq!(info.file_type, "pdf");
    assert_eq!(info.size, 12);
    assert_eq!(info.last_modified, "1700000000");
    let info = describe(&RemoteEntry {
        path: "/w/docs".to_string(),
        stat: RemoteStat { size: None, perm: Some(0o040700), mtime: None },
    })
    .unwrap();
    assert_eq!(info.name, "docs");
    assert_eq!(info.file_type, "Folder");
    assert_eq!(info.size, 0);
    assert_eq!(info.last_modified, "0");
    assert!(describe(&entry("/w/..", Some(0o040700))).is_none());
    assert!(describe(&entry("/", Some(0o040700))).is_none());
}

#[test]
fn listing_keeps_the_order_of_the_host() {
    let entries = vec![
        entry("/w/zeta.txt", Some(0o100644)),
        entry("/w/..", Some(0o040755)),
        entry("/w/alpha", Some(0o040755)),
        entry("/w/mid", Some(0o100644)),
        entry("", Some(0o100644)),
    ];
    let files = list_files_in_directory(&entries);
    let shown: Vec<(String, String)> =
        files.iter().map(|f| (f.name.clone(), f.file_type.clone())).collect();
    assert_eq!(
        shown,
        vec![
            ("zeta.txt".to_string(), "txt".to_string()),
            ("alpha".to_string(), "Folder".to_string()),
            ("mid".to_string(), "Unknown".to_string()),
        ]
    );
    assert!(list_files_in_directory(&vec![]).is_empty());
}
