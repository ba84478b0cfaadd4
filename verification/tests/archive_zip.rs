//! Archive downloads, written with a real archive writer and read back.

use pi_interface::archive::ZipDownload;
use pi_interface::failure::Failure;
use pi_interface::protocol::{Action, Outcome, Reply, Turn};
use pi_interface::stat::{RemoteEntry, RemoteStat};
use std::collections::BTreeMap;
use std::io::{Cursor, Read, Write};
use zip::write::SimpleFileOptions;
use zip::{ZipArchive, ZipWriter};

/// A host whose files are byte vectors and whose directories are empty
/// vectors under a path that ends in `/`.
struct Packer {
    files: BTreeMap<String, Vec<u8>>,
    dirs: Vec<String>,
    read_limit: usize,
    open: Option<(String, usize)>,
    writer: Option<ZipWriter<Cursor<Vec<u8>>>>,
    finished: Option<Vec<u8>>,
    moved: Option<(String, Vec<u8>)>,
    released: bool,
}

impl Packer {
    fn new(read_limit: usize) -> Packer {
        Packer {
            files: BTreeMap::new(),
            dirs: Vec::new(),
            read_limit,
            open: None,
            writer: None,
            finished: None,
            moved: None,
            released: false,
        }
    }

    fn stat_of(&self, path: &str) -> Option<RemoteStat> {
        if let Some(data) = self.files.get(path) {
            Some(RemoteStat { size: Some(data.len() as u64), perm: Some(0o100644), mtime: Some(1) })
        } else if self.dirs.iter().any(|d| d == path) {
            Some(RemoteStat { size: None, perm: Some(0o040755), mtime: Some(1) })
        } else {
            None
        }
    }

    fn perform(&mut self, action: Action) -> Reply {
        match action {
            Action::CreateTemp => Reply::Done,
            Action::CreateArchive => {
                self.writer = Some(ZipWriter::new(Cursor::new(Vec::new())));
                Reply::Done
            }
            Action::Stat { path } => match self.stat_of(&path) {
                Some(stat) => Reply::Stat(stat),
                None => Reply::Failed("no such file".to_string()),
            },
            Action::ReadDir { path } => {
                let prefix = format!("{}/", path);
                let mut names: Vec<String> = self
                    .files
                    .keys()
                    .chain(self.dirs.iter())
                    .filter(|k| k.starts_with(&prefix) && !k[prefix.len()..].contains('/'))
                    .cloned()
                    .collect();
                names.sort();
                let entries = names
                    .into_iter()
                    .map(|p| {
                        let stat = self.stat_of(&p).unwrap();
                        RemoteEntry { path: p, stat }
                    })
                    .collect();
                Reply::Entries(entries)
            }
            Action::OpenRemote { path } => {
                self.open = Some((path, 0));
                Reply::Done
            }
            Action::ReadRemote { limit } => {
                let (path, pos) = self.open.clone().unwrap();
                let data = &self.files[&path];
                let n = limit.min(self.read_limit).min(data.len() - pos);
                let chunk = data[pos..pos + n].to_vec();
                self.open = Some((path, pos + n));
                Reply::Data(chunk)
            }
            Action::CloseRemote => {
                self.open = None;
                Reply::Done
            }
            Action::StartEntry { name } => {
                match self.writer.as_mut().unwrap().start_file(name, SimpleFileOptions::default()) {
                    Ok(()) => Reply::Done,
                    Err(e) => Reply::Failed(e.to_string()),
                }
            }
            Action::WriteArchive { data } => {
                match self.writer.as_mut().unwrap().write_all(&data) {
                    Ok(()) => Reply::Done,
                    Err(e) => Reply::Failed(e.to_string()),
                }
            }
            Action::FinishArchive => match self.writer.take().unwrap().finish() {
                Ok(cursor) => {
                    self.finished = Some(cursor.into_inner());
                    Reply::Done
                }
                Err(e) => Reply::Failed(e.to_string()),
            },
            Action::ReadClock => Reply::Stamp(86_400 * 366),
            Action::LocateLocal { name } => Reply::Text(format!("/dl/{}", name)),
            Action::ClaimLocal { .. } => Reply::Flag(false),
            Action::MoveArchive { to } => {
                self.moved = Some((to, self.finished.take().unwrap()));
                Reply::Done
            }
            Action::DiscardTemp => {
                self.released = true;
                Reply::Done
            }
            Action::Emit { .. } => Reply::Done,
            other => panic!("unexpected action {:?}", other),
        }
    }

    fn run(&mut self, mut turn: Turn<ZipDownload>) -> Result<Outcome, Failure> {
        loop {
            match turn {
                Turn::Perform(download, action) => {
                    let reply = self.perform(action);
                    turn = download.step(reply);
                }
                Turn::Finished(outcome) => return Ok(outcome),
                Turn::Failed(failure) => return Err(failure),
            }
        }
    }

    /// The entries of the archive that was moved: name, size and content.
    fn entries(&self) -> Vec<(String, u64, Vec<u8>)> {
        let bytes = self.moved.as_ref().unwrap().1.clone();
        let mut archive = ZipArchive::new(Cursor::new(bytes)).unwrap();
        let mut entries = Vec::new();
        for i in 0..archive.len() {
            let mut file = archive.by_index(i).unwrap();
            let name = file.name().unwrap().to_string();
            let size = file.size();
            let mut content = Vec::new();
            file.read_to_end(&mut content).unwrap();
            entries.push((name, size, content));
        }
        entries
    }
}

fn strings(items: &[&str]) -> Vec<String> {
    items.iter().map(|s| s.to_string()).collect()
}

#[test]
fn real_archive_of_files_has_one_entry_for_each() {
    let mut p = Packer::new(700);
    let contents: Vec<(&str, Vec<u8>)> = vec![
        ("one.txt", b"hello".to_vec()),
        ("two.bin", (0..5000u32).map(|i| (i % 256) as u8).collect()),
        ("three", Vec::new()),
        ("four.dat", vec![7; 700]),
    ];
    for (name, data) in &contents {
        p.files.insert(format!("/w/{}", name), data.clone());
    }
    let names: Vec<&str> = contents.iter().map(|(n, _)| *n).collect();
    let done = p.run(ZipDownload::start("/w".to_string(), strings(&names)));
    assert!(matches!(done, Ok(Outcome::Done)));
    let entries = p.entries();
    assert_eq!(entries.len(), contents.len());
    for (entry, (name, data)) in entries.iter().zip(contents.iter()) {
        assert_eq!(entry.0, *name);
        assert_eq!(entry.1, data.len() as u64);
        assert!(entry.2 == *data);
    }
    assert_eq!(p.moved.as_ref().unwrap().0, "/dl/downloaded_files_19710102000000.zip");
    assert!(p.released);
}

#[test]
fn real_archive_of_a_directory_with_one_file() {
    let mut p = Packer::new(1 << 20);
    p.dirs.push("/w/docs".to_string());
    p.files.insert("/w/docs/a.txt".to_string(), b"text".to_vec());
    let done = p.run(ZipDownload::start("/w".to_string(), strings(&["docs"])));
    assert!(matches!(done, Ok(Outcome::Done)));
    let entries = p.entries();
    assert_eq!(entries.len(), 1);
    assert_eq!(entries[0].0, "docs/a.txt");
    assert_eq!(entries[0].1, 4);
    assert!(entries[0].2 == b"text".to_vec());
}

#[test]
fn real_archive_mirrors_the_directory_tree() {
    let mut p = Packer::new(3);
    for d in ["/w/a", "/w/a/b", "/w/a/b/c", "/w/a/void"] {
        p.dirs.push(d.to_string());
    }
    p.files.insert("/w/a/1".to_string(), vec![1; 1]);
    p.files.insert("/w/a/b/2".to_string(), vec![2; 20]);
    p.files.insert("/w/a/b/c/3".to_string(), vec![3; 3]);
    p.files.insert("/w/a/z".to_string(), vec![4; 4]);
    p.files.insert("/w/top".to_string(), vec![5; 5]);
    p.run(ZipDownload::start("/w".to_string(), strings(&["top", "a"]))).unwrap();
    let shown: Vec<(String, u64)> = p.entries().into_iter().map(|e| (e.0, e.1)).collect();
    assert_eq!(
        shown,
        vec![
            ("top".to_string(), 5),
            ("a/1".to_string(), 1),
            ("a/b/2".to_string(), 20),
            ("a/b/c/3".to_string(), 3),
            ("a/z".to_string(), 4),
        ]
    );
}

#[test]
fn real_archive_refuses_a_name_twice() {
    let mut p = Packer::new(100);
    p.files.insert("/w/x".to_string(), vec![1; 10]);
    let failed = p.run(ZipDownload::start("/w".to_string(), strings(&["x", "x"])));
    match failed {
        Err(f) => assert!(f.message.starts_with("Failed to add file to zip: "), "{}", f.message),
        Ok(_) => panic!("the archive took a name twice"),
    }
    assert!(p.released);
    assert!(p.moved.is_none());
}
