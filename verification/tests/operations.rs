//! The commands, carried out against a host that lives in memory.

use pi_interface::commands::{
    connect_to_pi, create_folder, delete_files, download_files, read_file, rename_file, save_file,
    upload_files, Operation,
};
use pi_interface::failure::{ErrorKind, Failure};
use pi_interface::listing::FileInfo;
use pi_interface::protocol::{Action, Outcome, Reply, Turn};
use pi_interface::stat::{RemoteEntry, RemoteStat};
use pi_interface::CHUNK_SIZE;
use std::collections::BTreeMap;

enum Node {
    File(Vec<u8>),
    Dir,
    Link,
}

/// A host, a local disk and a subscriber, all in memory.
struct World {
    settings: BTreeMap<String, String>,
    home_output: String,
    exit_status: i32,
    authenticated: bool,
    sftp: bool,
    nodes: BTreeMap<String, Node>,
    local: BTreeMap<String, Vec<u8>>,
    downloads: Option<String>,
    clock: i64,
    read_limit: usize,
    fail_on: Option<String>,
    remote_open: Option<String>,
    remote_pos: usize,
    local_open: Option<String>,
    local_pos: usize,
    temp: bool,
    released: u32,
    archive: Vec<(String, Vec<u8>)>,
    moved: BTreeMap<String, Vec<(String, Vec<u8>)>>,
    claimed: Vec<String>,
    events: Vec<(String, u64)>,
    log: Vec<String>,
}

fn world() -> World {
    let mut settings = BTreeMap::new();
    settings.insert("VITE_PI_IP".to_string(), "10.0.0.7".to_string());
    settings.insert("VITE_PI_USERNAME".to_string(), "pi".to_string());
    settings.insert("VITE_PI_PASSWORD".to_string(), "raspberry".to_string());
    let mut nodes = BTreeMap::new();
    nodes.insert("/home/pi".to_string(), Node::Dir);
    World {
        settings,
        home_output: "/home/pi\n".to_string(),
        exit_status: 0,
        authenticated: true,
        sftp: true,
        nodes,
        local: BTreeMap::new(),
        downloads: Some("/tmp/Downloads".to_string()),
        clock: 1_700_000_000,
        read_limit: CHUNK_SIZE,
        fail_on: None,
        remote_open: None,
        remote_pos: 0,
        local_open: None,
        local_pos: 0,
        temp: false,
        released: 0,
        archive: Vec::new(),
        moved: BTreeMap::new(),
        claimed: Vec::new(),
        events: Vec::new(),
        log: Vec::new(),
    }
}

fn parent(path: &str) -> String {
    match path.rfind('/') {
        Some(i) => path[..i].to_string(),
        None => String::new(),
    }
}

impl World {
    fn stat_of(&self, path: &str) -> Option<RemoteStat> {
        match self.nodes.get(path) {
            Some(Node::File(data)) => {
                Some(RemoteStat { size: Some(data.len() as u64), perm: Some(0o100644), mtime: Some(1234) })
            }
            Some(Node::Dir) => Some(RemoteStat { size: Some(4096), perm: Some(0o040755), mtime: Some(99) }),
            Some(Node::Link) => Some(RemoteStat { size: None, perm: Some(0o120777), mtime: None }),
            None => None,
        }
    }

    fn children(&self, dir: &str) -> Vec<String> {
        let prefix = format!("{}/", dir);
        self.nodes
            .keys()
            .filter(|k| k.starts_with(&prefix) && !k[prefix.len()..].contains('/'))
            .cloned()
            .collect()
    }

    fn sftp_action(action: &Action) -> bool {
        matches!(
            action,
            Action::Stat { .. }
                | Action::MakeDir { .. }
                | Action::ReadDir { .. }
                | Action::Rename { .. }
                | Action::Unlink { .. }
                | Action::RemoveDir { .. }
                | Action::OpenRemote { .. }
                | Action::CreateRemote { .. }
        )
    }

    fn perform(&mut self, action: Action) -> Reply {
        let shown = match &action {
            Action::WriteRemote { data } => format!("WriteRemote {{ len: {} }}", data.len()),
            Action::WriteLocal { data } => format!("WriteLocal {{ len: {} }}", data.len()),
            Action::WriteArchive { data } => format!("WriteArchive {{ len: {} }}", data.len()),
            other => format!("{:?}", other),
        };
        self.log.push(shown.clone());
        if let Some(prefix) = &self.fail_on {
            if shown.starts_with(prefix.as_str()) {
                return Reply::Failed("boom".to_string());
            }
        }
        if !self.sftp && World::sftp_action(&action) {
            return Reply::Unavailable("no channel".to_string());
        }
        match action {
            Action::LoadEnvironment => Reply::Done,
            Action::LoadSetting { key } => match self.settings.get(&key) {
                Some(v) => Reply::Text(v.clone()),
                None => Reply::Failed("environment variable not found".to_string()),
            },
            Action::Connect { .. } | Action::CreateSession | Action::Handshake => Reply::Done,
            Action::Authenticate { username, password } => {
                if username == "pi" && password == "raspberry" {
                    Reply::Done
                } else {
                    Reply::Failed("bad credentials".to_string())
                }
            }
            Action::CheckAuthenticated => Reply::Flag(self.authenticated),
            Action::OpenChannel | Action::CloseChannel => Reply::Done,
            Action::Execute { command } => {
                if command == "echo $HOME" {
                    Reply::Done
                } else {
                    Reply::Failed("unknown command".to_string())
                }
            }
            Action::ReadOutput => Reply::Text(self.home_output.clone()),
            Action::ExitStatus => Reply::Code(self.exit_status),
            Action::Stat { path } => match self.stat_of(&path) {
                Some(stat) => Reply::Stat(stat),
                None => Reply::Failed("no such file".to_string()),
            },
            Action::MakeDir { path, mode } => {
                if mode != 0o755 {
                    Reply::Failed("unexpected mode".to_string())
                } else if self.nodes.contains_key(&path) {
                    Reply::Failed("already there".to_string())
                } else if !matches!(self.nodes.get(&parent(&path)), Some(Node::Dir)) {
                    Reply::Failed("no such directory".to_string())
                } else {
                    self.nodes.insert(path, Node::Dir);
                    Reply::Done
                }
            }
            Action::ReadDir { path } => {
                if !matches!(self.nodes.get(&path), Some(Node::Dir)) {
                    return Reply::Failed("not a directory".to_string());
                }
                let mut entries = Vec::new();
                for child in self.children(&path) {
                    let stat = self.stat_of(&child).unwrap();
                    entries.push(RemoteEntry { path: child, stat });
                }
                Reply::Entries(entries)
            }
            Action::Rename { from, to } => {
                if !self.nodes.contains_key(&from) {
                    return Reply::Failed("no such file".to_string());
                }
                if self.nodes.contains_key(&to) {
                    return Reply::Failed("already there".to_string());
                }
                let inside = format!("{}/", from);
                let keys: Vec<String> = self
                    .nodes
                    .keys()
                    .filter(|k| **k == from || k.starts_with(&inside))
                    .cloned()
                    .collect();
                for k in keys {
                    let node = self.nodes.remove(&k).unwrap();
                    self.nodes.insert(format!("{}{}", to, &k[from.len()..]), node);
                }
                Reply::Done
            }
            Action::Unlink { path } => match self.nodes.get(&path) {
                Some(Node::File(_)) | Some(Node::Link) => {
                    self.nodes.remove(&path);
                    Reply::Done
                }
                _ => Reply::Failed("not a file".to_string()),
            },
            Action::RemoveDir { path } => {
                if matches!(self.nodes.get(&path), Some(Node::Dir)) && self.children(&path).is_empty() {
                    self.nodes.remove(&path);
                    Reply::Done
                } else {
                    Reply::Failed("directory not empty".to_string())
                }
            }
            Action::OpenRemote { path } => match self.nodes.get(&path) {
                Some(Node::File(_)) => {
                    self.remote_open = Some(path);
                    self.remote_pos = 0;
                    Reply::Done
                }
                _ => Reply::Failed("no such file".to_string()),
            },
            Action::CreateRemote { path } => {
                if matches!(self.nodes.get(&parent(&path)), Some(Node::Dir)) {
                    self.nodes.insert(path.clone(), Node::File(Vec::new()));
                    self.remote_open = Some(path);
                    self.remote_pos = 0;
                    Reply::Done
                } else {
                    Reply::Failed("no such directory".to_string())
                }
            }
            Action::ReadRemote { limit } => {
                let path = self.remote_open.clone().unwrap();
                let data = match self.nodes.get(&path) {
                    Some(Node::File(data)) => data,
                    _ => return Reply::Failed("gone".to_string()),
                };
                let n = limit.min(self.read_limit).min(data.len() - self.remote_pos);
                let chunk = data[self.remote_pos..self.remote_pos + n].to_vec();
                self.remote_pos += n;
                Reply::Data(chunk)
            }
            Action::WriteRemote { data: chunk } => {
                let path = self.remote_open.clone().unwrap();
                match self.nodes.get_mut(&path) {
                    Some(Node::File(data)) => {
                        data.extend_from_slice(&chunk);
                        Reply::Done
                    }
                    _ => Reply::Failed("gone".to_string()),
                }
            }
            Action::ReadRemoteText => {
                let path = self.remote_open.clone().unwrap();
                match self.nodes.get(&path) {
                    Some(Node::File(data)) => match String::from_utf8(data.clone()) {
                        Ok(text) => Reply::Text(text),
                        Err(_) => Reply::Failed("stream did not contain valid UTF-8".to_string()),
                    },
                    _ => Reply::Failed("gone".to_string()),
                }
            }
            Action::WriteRemoteText { content } => {
                let path = self.remote_open.clone().unwrap();
                match self.nodes.get_mut(&path) {
                    Some(Node::File(data)) => {
                        data.extend_from_slice(content.as_bytes());
                        Reply::Done
                    }
                    _ => Reply::Failed("gone".to_string()),
                }
            }
            Action::CloseRemote => {
                self.remote_open = None;
                Reply::Done
            }
            Action::NameLocal { path } => match path.rsplit('/').next() {
                Some(name) if !name.is_empty() && name != ".." => Reply::Text(name.to_string()),
                _ => Reply::Absent,
            },
            Action::LocateLocal { name } => match &self.downloads {
                Some(dir) => Reply::Text(format!("{}/{}", dir, name)),
                None => Reply::Absent,
            },
            Action::ClaimLocal { path } => {
                let taken = self.local.contains_key(&path)
                    || self.moved.contains_key(&path)
                    || self.claimed.contains(&path);
                if !taken {
                    self.claimed.push(path);
                }
                Reply::Flag(taken)
            }
            Action::CreateLocal { path } => {
                self.local.insert(path.clone(), Vec::new());
                self.local_open = Some(path);
                Reply::Done
            }
            Action::OpenLocal { path } => {
                if self.local.contains_key(&path) {
                    self.local_open = Some(path);
                    self.local_pos = 0;
                    Reply::Done
                } else {
                    Reply::Failed("no such file".to_string())
                }
            }
            Action::MeasureLocal => {
                let path = self.local_open.clone().unwrap();
                Reply::Size(self.local[&path].len() as u64)
            }
            Action::ReadLocal { limit } => {
                let path = self.local_open.clone().unwrap();
                let data = &self.local[&path];
                let n = limit.min(self.read_limit).min(data.len() - self.local_pos);
                let chunk = data[self.local_pos..self.local_pos + n].to_vec();
                self.local_pos += n;
                Reply::Data(chunk)
            }
            Action::WriteLocal { data } => {
                let path = self.local_open.clone().unwrap();
                self.local.get_mut(&path).unwrap().extend_from_slice(&data);
                Reply::Done
            }
            Action::FlushLocal => Reply::Done,
            Action::CreateTemp => {
                self.temp = true;
                Reply::Done
            }
            Action::CreateArchive => {
                self.archive = Vec::new();
                Reply::Done
            }
            Action::StartEntry { name } => {
                self.archive.push((name, Vec::new()));
                Reply::Done
            }
            Action::WriteArchive { data } => {
                self.archive.last_mut().unwrap().1.extend_from_slice(&data);
                Reply::Done
            }
            Action::FinishArchive => Reply::Done,
            Action::ReadClock => Reply::Stamp(self.clock),
            Action::MoveArchive { to } => {
                if !self.claimed.contains(&to) {
                    return Reply::Failed("not claimed".to_string());
                }
                let archive = std::mem::take(&mut self.archive);
                self.moved.insert(to, archive);
                Reply::Done
            }
            Action::DiscardTemp => {
                self.temp = false;
                self.released += 1;
                Reply::Done
            }
            Action::Emit { topic, value } => {
                self.events.push((topic.name().to_string(), value));
                Reply::Done
            }
        }
    }

    fn run(&mut self, mut turn: Turn<Operation>) -> Result<Outcome, Failure> {
        loop {
            match turn {
                Turn::Perform(operation, action) => {
                    let reply = self.perform(action);
                    turn = operation.step(reply);
                }
                Turn::Finished(outcome) => return Ok(outcome),
                Turn::Failed(failure) => return Err(failure),
            }
        }
    }

    fn list(&mut self, user: &str, path: Option<&str>) -> Vec<FileInfo> {
        match self.run(connect_to_pi(user.to_string(), path.map(|p| p.to_string()))) {
            Ok(Outcome::Listing(files)) => files,
            other => panic!("no listing: {:?}", other),
        }
    }

    fn performed(&self, prefix: &str) -> usize {
        self.log.iter().filter(|a| a.starts_with(prefix)).count()
    }
}

fn strings(items: &[&str]) -> Vec<String> {
    items.iter().map(|s| s.to_string()).collect()
}

fn names(files: &[FileInfo]) -> Vec<String> {
    files.iter().map(|f| f.name.clone()).collect()
}

fn failure(result: Result<Outcome, Failure>) -> Failure {
    match result {
        Err(f) => f,
        Ok(o) => panic!("no failure: {:?}", o),
    }
}

#[test]
fn provisioning_twice_gives_the_same_workspace() {
    let mut w = world();
    assert!(w.list("ada", None).is_empty());
    assert!(matches!(w.nodes.get("/home/pi/pi-interface"), Some(Node::Dir)));
    assert!(matches!(w.nodes.get("/home/pi/pi-interface/ada"), Some(Node::Dir)));
    assert_eq!(w.performed("MakeDir"), 2);
    let first: Vec<String> = w.log.iter().filter(|a| a.starts_with("ReadDir")).cloned().collect();
    w.log.clear();
    assert!(w.list("ada", None).is_empty());
    assert_eq!(w.performed("MakeDir"), 0);
    let second: Vec<String> = w.log.iter().filter(|a| a.starts_with("ReadDir")).cloned().collect();
    assert_eq!(first, second);
    assert_eq!(second, vec!["ReadDir { path: \"/home/pi/pi-interface/ada\" }".to_string()]);
}

#[test]
fn provisioning_creates_only_what_is_missing() {
    let mut w = world();
    w.nodes.insert("/home/pi/pi-interface".to_string(), Node::Dir);
    w.list("ada", None);
    assert_eq!(w.performed("MakeDir"), 1);
    assert!(w.log.contains(&"MakeDir { path: \"/home/pi/pi-interface/ada\", mode: 493 }".to_string()));
}

#[test]
fn listing_a_directory_below_the_workspace() {
    let mut w = world();
    w.list("ada", None);
    w.nodes.insert("/home/pi/pi-interface/ada/docs".to_string(), Node::Dir);
    w.nodes.insert("/home/pi/pi-interface/ada/docs/a.txt".to_string(), Node::File(vec![1, 2, 3]));
    let files = w.list("ada", Some("docs"));
    assert_eq!(names(&files), strings(&["a.txt"]));
    assert_eq!(files[0].file_type, "txt");
    assert_eq!(files[0].size, 3);
    assert_eq!(files[0].last_modified, "1234");
}

#[test]
fn saved_text_is_read_back() {
    let mut w = world();
    w.list("ada", None);
    let saved =
        w.run(save_file("ada".to_string(), vec![], "note.txt".to_string(), "hello".to_string()));
    assert!(matches!(saved, Ok(Outcome::Done)));
    match w.run(read_file("ada".to_string(), vec![], "note.txt".to_string())) {
        Ok(Outcome::Content(text)) => assert_eq!(text, "hello"),
        other => panic!("no content: {:?}", other),
    }
}

#[test]
fn saving_again_replaces_the_content() {
    let mut w = world();
    w.list("ada", None);
    w.run(save_file("ada".to_string(), vec![], "n".to_string(), "first text".to_string())).unwrap();
    w.run(save_file("ada".to_string(), vec![], "n".to_string(), "second".to_string())).unwrap();
    match w.run(read_file("ada".to_string(), vec![], "n".to_string())) {
        Ok(Outcome::Content(text)) => assert_eq!(text, "second"),
        other => panic!("no content: {:?}", other),
    }
}

#[test]
fn created_folder_is_listed_as_a_folder() {
    let mut w = world();
    w.list("ada", None);
    let made = w.run(create_folder("ada".to_string(), vec![], "docs".to_string()));
    assert!(matches!(made, Ok(Outcome::Done)));
    let files = w.list("ada", None);
    assert_eq!(names(&files), strings(&["docs"]));
    assert_eq!(files[0].file_type, "Folder");
}

#[test]
fn creating_a_folder_that_is_there_fails() {
    let mut w = world();
    w.list("ada", None);
    w.run(create_folder("ada".to_string(), vec![], "docs".to_string())).unwrap();
    let f = failure(w.run(create_folder("ada".to_string(), vec![], "docs".to_string())));
    assert_eq!(f.kind, ErrorKind::RemoteProtocol);
    assert_eq!(
        f.message,
        "Failed to create folder '/home/pi/pi-interface/ada/docs': already there"
    );
}

#[test]
fn renamed_entry_is_listed_under_its_new_name() {
    let mut w = world();
    w.list("ada", None);
    w.nodes.insert("/home/pi/pi-interface/ada/old.txt".to_string(), Node::File(vec![7; 10]));
    w.nodes.insert("/home/pi/pi-interface/ada/box".to_string(), Node::Dir);
    let before = w.list("ada", None);
    let old = before.iter().find(|f| f.name == "old.txt").unwrap();
    let (size, kind) = (old.size, old.file_type.clone());
    w.run(rename_file("ada".to_string(), vec![], "old.txt".to_string(), "new.txt".to_string()))
        .unwrap();
    w.run(rename_file("ada".to_string(), vec![], "box".to_string(), "crate.d".to_string())).unwrap();
    let after = w.list("ada", None);
    assert_eq!(names(&after), strings(&["crate.d", "new.txt"]));
    let new = after.iter().find(|f| f.name == "new.txt").unwrap();
    assert_eq!(new.size, size);
    assert_eq!(new.file_type, kind);
    assert_eq!(after[0].file_type, "Folder");
}

#[test]
fn renaming_what_is_not_there_fails() {
    let mut w = world();
    w.list("ada", None);
    let f = failure(w.run(rename_file(
        "ada".to_string(),
        strings(&["a", "b"]),
        "x".to_string(),
        "y".to_string(),
    )));
    assert_eq!(f.kind, ErrorKind::RemoteProtocol);
    assert_eq!(f.message, "Failed to rename '/home/pi/pi-interface/ada/a/b/x': no such file");
}

#[test]
fn deleting_a_directory_removes_all_below_it() {
    let mut w = world();
    w.list("ada", None);
    let root = "/home/pi/pi-interface/ada";
    for dir in ["top", "top/a", "top/a/deep", "top/b", "top/empty"] {
        w.nodes.insert(format!("{}/{}", root, dir), Node::Dir);
    }
    for file in ["top/one.txt", "top/a/two.txt", "top/a/deep/three.txt", "top/b/four", "keep.txt"] {
        w.nodes.insert(format!("{}/{}", root, file), Node::File(vec![0; 5]));
    }
    let done = w.run(delete_files("ada".to_string(), vec![], strings(&["top"])));
    assert!(matches!(done, Ok(Outcome::Done)));
    assert!(w.nodes.keys().all(|k| !k.starts_with("/home/pi/pi-interface/ada/top")));
    assert_eq!(names(&w.list("ada", None)), strings(&["keep.txt"]));
    assert_eq!(w.performed("Unlink"), 4);
    assert_eq!(w.performed("RemoveDir"), 5);
}

#[test]
fn deleting_files_and_directories_by_name() {
    let mut w = world();
    w.list("ada", None);
    let root = "/home/pi/pi-interface/ada";
    w.nodes.insert(format!("{}/d", root), Node::Dir);
    w.nodes.insert(format!("{}/d/x", root), Node::File(vec![]));
    w.nodes.insert(format!("{}/f", root), Node::File(vec![]));
    w.nodes.insert(format!("{}/g", root), Node::File(vec![]));
    w.log.clear();
    w.run(delete_files("ada".to_string(), vec![], strings(&["f", "d"]))).unwrap();
    let deletions: Vec<String> = w
        .log
        .iter()
        .filter(|a| a.starts_with("Unlink") || a.starts_with("RemoveDir"))
        .cloned()
        .collect();
    assert_eq!(
        deletions,
        strings(&[
            "Unlink { path: \"/home/pi/pi-interface/ada/f\" }",
            "Unlink { path: \"/home/pi/pi-interface/ada/d/x\" }",
            "RemoveDir { path: \"/home/pi/pi-interface/ada/d\" }",
        ])
    );
    assert_eq!(names(&w.list("ada", None)), strings(&["g"]));
}

#[test]
fn deleting_stops_at_the_first_failure() {
    let mut w = world();
    w.list("ada", None);
    let root = "/home/pi/pi-interface/ada";
    w.nodes.insert(format!("{}/a", root), Node::File(vec![]));
    w.nodes.insert(format!("{}/c", root), Node::File(vec![]));
    let f = failure(w.run(delete_files("ada".to_string(), vec![], strings(&["a", "b", "c"]))));
    assert_eq!(f.kind, ErrorKind::RemoteProtocol);
    assert_eq!(f.message, "Failed to stat '/home/pi/pi-interface/ada/b': no such file");
    assert!(!w.nodes.contains_key("/home/pi/pi-interface/ada/a"));
    assert!(w.nodes.contains_key("/home/pi/pi-interface/ada/c"));
}

#[test]
fn deleting_nothing_succeeds() {
    let mut w = world();
    assert!(matches!(w.run(delete_files("ada".to_string(), vec![], vec![])), Ok(Outcome::Done)));
    assert_eq!(w.performed("Stat"), 2);
    assert_eq!(w.performed("Unlink") + w.performed("RemoveDir") + w.performed("ReadDir"), 0);
}

#[test]
fn chunked_download_moves_every_byte() {
    let mut w = world();
    w.list("ada", None);
    let size = 2 * CHUNK_SIZE + CHUNK_SIZE / 2;
    let data: Vec<u8> = (0..size).map(|i| (i % 251) as u8).collect();
    w.nodes.insert("/home/pi/pi-interface/ada/big.bin".to_string(), Node::File(data.clone()));
    w.log.clear();
    let saved = w.run(download_files("ada".to_string(), vec![], strings(&["big.bin"])));
    match saved {
        Ok(Outcome::Saved(path)) => assert_eq!(path, "/tmp/Downloads/big.bin"),
        other => panic!("not saved: {:?}", other),
    }
    assert!(w.local["/tmp/Downloads/big.bin"] == data);
    assert_eq!(w.performed("WriteLocal"), 3);
    assert_eq!(w.performed("ReadRemote"), 4);
    assert_eq!(
        w.events,
        vec![
            ("total-size".to_string(), size as u64),
            ("download-progress".to_string(), CHUNK_SIZE as u64),
            ("download-progress".to_string(), 2 * CHUNK_SIZE as u64),
            ("download-progress".to_string(), size as u64),
        ]
    );
}

#[test]
fn download_with_short_reads_is_complete() {
    let mut w = world();
    w.list("ada", None);
    w.read_limit = 1000;
    let data: Vec<u8> = (0..2500usize).map(|i| (i % 7) as u8).collect();
    w.nodes.insert("/home/pi/pi-interface/ada/s.bin".to_string(), Node::File(data.clone()));
    w.run(download_files("ada".to_string(), vec![], strings(&["s.bin"]))).unwrap();
    assert!(w.local["/tmp/Downloads/s.bin"] == data);
    assert_eq!(w.events.last(), Some(&("download-progress".to_string(), 2500)));
    assert_eq!(w.performed("WriteLocal"), 3);
}

#[test]
fn download_of_an_empty_file_reports_no_progress() {
    let mut w = world();
    w.list("ada", None);
    w.nodes.insert("/home/pi/pi-interface/ada/e".to_string(), Node::File(vec![]));
    w.run(download_files("ada".to_string(), vec![], strings(&["e"]))).unwrap();
    assert_eq!(w.events, vec![("total-size".to_string(), 0)]);
    assert!(w.local["/tmp/Downloads/e"].is_empty());
}

#[test]
fn download_without_downloads_directory_fails() {
    let mut w = world();
    w.list("ada", None);
    w.downloads = None;
    w.nodes.insert("/home/pi/pi-interface/ada/f".to_string(), Node::File(vec![1]));
    let f = failure(w.run(download_files("ada".to_string(), vec![], strings(&["f"]))));
    assert_eq!(f.kind, ErrorKind::LocalIo);
    assert_eq!(f.message, "Failed to find the Downloads directory");
}

#[test]
fn download_of_a_missing_file_fails() {
    let mut w = world();
    w.list("ada", None);
    let f = failure(w.run(download_files("ada".to_string(), strings(&["sub"]), strings(&["f"]))));
    assert_eq!(f.kind, ErrorKind::RemoteProtocol);
    assert_eq!(
        f.message,
        "Failed to stat remote file '/home/pi/pi-interface/ada/sub/f': no such file"
    );
}

#[test]
fn download_that_cannot_write_fails() {
    let mut w = world();
    w.list("ada", None);
    w.nodes.insert("/home/pi/pi-interface/ada/f".to_string(), Node::File(vec![1, 2]));
    w.fail_on = Some("WriteLocal".to_string());
    let f = failure(w.run(download_files("ada".to_string(), vec![], strings(&["f"]))));
    assert_eq!(f.kind, ErrorKind::LocalIo);
    assert_eq!(f.message, "Failed to write to local file at '/tmp/Downloads/f': boom");
}

#[test]
fn download_that_cannot_read_fails() {
    let mut w = world();
    w.list("ada", None);
    w.nodes.insert("/home/pi/pi-interface/ada/f".to_string(), Node::File(vec![1, 2]));
    w.fail_on = Some("ReadRemote".to_string());
    let f = failure(w.run(download_files("ada".to_string(), vec![], strings(&["f"]))));
    assert_eq!(f.kind, ErrorKind::RemoteProtocol);
    assert_eq!(f.message, "Failed to read remote file '/home/pi/pi-interface/ada/f': boom");
}

#[test]
fn download_of_a_single_entry_that_is_neither_file_nor_directory_does_nothing() {
    let mut w = world();
    w.list("ada", None);
    w.nodes.insert("/home/pi/pi-interface/ada/l".to_string(), Node::Link);
    w.log.clear();
    let done = w.run(download_files("ada".to_string(), vec![], strings(&["l"])));
    assert!(matches!(done, Ok(Outcome::Done)));
    assert!(w.local.is_empty());
    assert_eq!(w.performed("CreateTemp"), 0);
}

#[test]
fn archive_of_files_holds_one_entry_for_each() {
    let mut w = world();
    w.list("ada", None);
    let root = "/home/pi/pi-interface/ada";
    w.nodes.insert(format!("{}/a.txt", root), Node::File(vec![1; 10]));
    w.nodes.insert(format!("{}/b.bin", root), Node::File(vec![2; 3000]));
    w.nodes.insert(format!("{}/c", root), Node::File(vec![]));
    w.read_limit = 1024;
    let done = w.run(download_files("ada".to_string(), vec![], strings(&["b.bin", "a.txt", "c"])));
    assert!(matches!(done, Ok(Outcome::Done)));
    let archive = &w.moved["/tmp/Downloads/downloaded_files_20231114221320.zip"];
    let entries: Vec<(String, usize)> =
        archive.iter().map(|(n, d)| (n.clone(), d.len())).collect();
    assert_eq!(
        entries,
        vec![("b.bin".to_string(), 3000), ("a.txt".to_string(), 10), ("c".to_string(), 0)]
    );
    assert!(archive[0].1 == vec![2; 3000]);
    assert_eq!(w.released, 1);
    assert!(!w.temp);
    assert_eq!(w.events[0], ("total-size".to_string(), 3010));
    assert_eq!(
        w.events[1..6],
        [
            ("total-size".to_string(), 3000),
            ("zip-progress".to_string(), 1024),
            ("zip-progress".to_string(), 2048),
            ("zip-progress".to_string(), 3000),
            ("total-size".to_string(), 10),
        ]
    );
}

#[test]
fn archive_of_a_directory_names_entries_by_their_path() {
    let mut w = world();
    w.list("ada", None);
    let root = "/home/pi/pi-interface/ada";
    w.nodes.insert(format!("{}/docs", root), Node::Dir);
    w.nodes.insert(format!("{}/docs/a.txt", root), Node::File(vec![5; 7]));
    let done = w.run(download_files("ada".to_string(), vec![], strings(&["docs"])));
    assert!(matches!(done, Ok(Outcome::Done)));
    let archive = w.moved.values().next().unwrap();
    assert_eq!(archive.len(), 1);
    assert_eq!(archive[0].0, "docs/a.txt");
    assert!(archive[0].1 == vec![5; 7]);
}

#[test]
fn archive_walks_nested_directories_depth_first() {
    let mut w = world();
    w.list("ada", None);
    let root = "/home/pi/pi-interface/ada";
    for dir in ["p", "p/a", "p/a/x", "p/empty", "p/z"] {
        w.nodes.insert(format!("{}/{}", root, dir), Node::Dir);
    }
    w.nodes.insert(format!("{}/p/a/1.txt", root), Node::File(vec![1]));
    w.nodes.insert(format!("{}/p/a/x/2.txt", root), Node::File(vec![2, 2]));
    w.nodes.insert(format!("{}/p/b.txt", root), Node::File(vec![3, 3, 3]));
    w.nodes.insert(format!("{}/p/link", root), Node::Link);
    w.nodes.insert(format!("{}/p/z/9", root), Node::File(vec![9; 9]));
    w.nodes.insert(format!("{}/q.txt", root), Node::File(vec![4; 4]));
    w.run(download_files("ada".to_string(), vec![], strings(&["p", "q.txt"]))).unwrap();
    let archive = w.moved.values().next().unwrap();
    let entries: Vec<(String, usize)> =
        archive.iter().map(|(n, d)| (n.clone(), d.len())).collect();
    assert_eq!(
        entries,
        vec![
            ("p/a/1.txt".to_string(), 1),
            ("p/a/x/2.txt".to_string(), 2),
            ("p/b.txt".to_string(), 3),
            ("p/z/9".to_string(), 9),
            ("q.txt".to_string(), 4),
        ]
    );
}

#[test]
fn archive_of_nothing_is_empty() {
    let mut w = world();
    w.list("ada", None);
    let done = w.run(download_files("ada".to_string(), vec![], vec![]));
    assert!(matches!(done, Ok(Outcome::Done)));
    assert!(w.moved.values().next().unwrap().is_empty());
    assert_eq!(w.events, vec![("total-size".to_string(), 0)]);
}

#[test]
fn failed_archive_releases_the_temporary_storage() {
    let mut w = world();
    w.list("ada", None);
    let root = "/home/pi/pi-interface/ada";
    w.nodes.insert(format!("{}/a", root), Node::File(vec![1; 10]));
    w.nodes.insert(format!("{}/b", root), Node::File(vec![1; 10]));
    w.fail_on = Some("WriteArchive".to_string());
    let f = failure(w.run(download_files("ada".to_string(), vec![], strings(&["a", "b"]))));
    assert_eq!(f.kind, ErrorKind::Archive);
    assert_eq!(f.message, "Failed to write to zip: boom");
    assert_eq!(w.released, 1);
    assert!(!w.temp);
    assert!(w.moved.is_empty());
}

#[test]
fn archive_of_a_missing_item_fails_and_releases() {
    let mut w = world();
    w.list("ada", None);
    w.nodes.insert("/home/pi/pi-interface/ada/a".to_string(), Node::File(vec![1]));
    let f = failure(w.run(download_files("ada".to_string(), vec![], strings(&["a", "nope"]))));
    assert_eq!(
        f.message,
        "Failed to stat remote file '/home/pi/pi-interface/ada/nope': no such file"
    );
    assert_eq!(w.released, 1);
    assert_eq!(w.performed("StartEntry"), 0);
}

#[test]
fn archive_without_temporary_storage_fails_at_once() {
    let mut w = world();
    w.list("ada", None);
    w.fail_on = Some("CreateTemp".to_string());
    let f = failure(w.run(download_files("ada".to_string(), vec![], strings(&["a", "b"]))));
    assert_eq!(f.kind, ErrorKind::LocalIo);
    assert_eq!(f.message, "Failed to create temporary directory: boom");
    assert_eq!(w.released, 0);
}

#[test]
fn upload_reports_cumulative_progress() {
    let mut w = world();
    w.list("ada", None);
    w.read_limit = 4;
    w.local.insert("/home/me/pic.png".to_string(), vec![9; 10]);
    w.local.insert("/home/me/z".to_string(), vec![8; 3]);
    let done = w.run(upload_files(
        "ada".to_string(),
        vec![],
        strings(&["/home/me/pic.png", "/home/me/z"]),
    ));
    assert!(matches!(done, Ok(Outcome::Done)));
    assert!(matches!(w.nodes.get("/home/pi/pi-interface/ada/pic.png"), Some(Node::File(d)) if *d == vec![9; 10]));
    assert!(matches!(w.nodes.get("/home/pi/pi-interface/ada/z"), Some(Node::File(d)) if *d == vec![8; 3]));
    assert_eq!(
        w.events,
        vec![
            ("total-size".to_string(), 10),
            ("upload-progress".to_string(), 4),
            ("upload-progress".to_string(), 8),
            ("upload-progress".to_string(), 10),
            ("total-size".to_string(), 3),
            ("upload-progress".to_string(), 3),
        ]
    );
}

#[test]
fn upload_of_a_path_without_name_fails() {
    let mut w = world();
    w.list("ada", None);
    let f = failure(w.run(upload_files("ada".to_string(), vec![], strings(&["/home/me/.."]))));
    assert_eq!(f.kind, ErrorKind::Path);
    assert_eq!(f.message, "Failed to get file name of '/home/me/..'");
}

#[test]
fn upload_of_a_missing_local_file_fails() {
    let mut w = world();
    w.list("ada", None);
    let f = failure(w.run(upload_files("ada".to_string(), vec![], strings(&["/home/me/gone"]))));
    assert_eq!(f.kind, ErrorKind::LocalIo);
    assert_eq!(f.message, "Failed to open local file '/home/me/gone': no such file");
}

#[test]
fn upload_stops_at_the_first_failure() {
    let mut w = world();
    w.list("ada", None);
    w.local.insert("/l/a".to_string(), vec![1]);
    w.local.insert("/l/c".to_string(), vec![3]);
    let f = failure(w.run(upload_files("ada".to_string(), vec![], strings(&["/l/a", "/l/b", "/l/c"]))));
    assert_eq!(f.message, "Failed to open local file '/l/b': no such file");
    assert!(w.nodes.contains_key("/home/pi/pi-interface/ada/a"));
    assert!(!w.nodes.contains_key("/home/pi/pi-interface/ada/c"));
}

#[test]
fn missing_setting_is_a_config_failure() {
    for key in ["VITE_PI_IP", "VITE_PI_USERNAME", "VITE_PI_PASSWORD"] {
        let mut w = world();
        w.settings.remove(key);
        let f = failure(w.run(connect_to_pi("ada".to_string(), None)));
        assert_eq!(f.kind, ErrorKind::Config);
        assert_eq!(f.message, format!("Failed to load {}: environment variable not found", key));
        assert_eq!(w.performed("Connect"), 0);
    }
}

#[test]
fn session_steps_fail_with_their_own_messages() {
    let cases = [
        ("Connect", "Failed to connect to 10.0.0.7:22: boom"),
        ("CreateSession", "Failed to create SSH session: boom"),
        ("Handshake", "SSH handshake failed: boom"),
        ("Authenticate", "SSH authentication failed: boom"),
    ];
    for (step, message) in cases {
        let mut w = world();
        w.fail_on = Some(step.to_string());
        let f = failure(w.run(read_file("ada".to_string(), vec![], "f".to_string())));
        assert_eq!(f.kind, ErrorKind::Connection);
        assert_eq!(f.message, message);
    }
}

#[test]
fn home_lookup_steps_fail_with_their_own_messages() {
    let cases = [
        ("OpenChannel", "Failed to create channel session: boom"),
        ("Execute", "Failed to execute command to get home directory: boom"),
        ("ReadOutput", "Failed to read home directory: boom"),
        ("CloseChannel", "Failed to close channel: boom"),
        ("ExitStatus", "Failed to get exit status: boom"),
    ];
    for (step, message) in cases {
        let mut w = world();
        w.fail_on = Some(step.to_string());
        let f = failure(w.run(read_file("ada".to_string(), vec![], "f".to_string())));
        assert_eq!(f.kind, ErrorKind::RemoteProtocol);
        assert_eq!(f.message, message);
    }
}

#[test]
fn wrong_password_is_a_connection_failure() {
    let mut w = world();
    w.settings.insert("VITE_PI_PASSWORD".to_string(), "guess".to_string());
    let f = failure(w.run(connect_to_pi("ada".to_string(), None)));
    assert_eq!(f.kind, ErrorKind::Connection);
    assert_eq!(f.message, "SSH authentication failed: bad credentials");
}

#[test]
fn session_that_is_not_authenticated_fails() {
    let mut w = world();
    w.authenticated = false;
    let f = failure(w.run(connect_to_pi("ada".to_string(), None)));
    assert_eq!(f.kind, ErrorKind::Connection);
    assert_eq!(f.message, "Authentication failed");
    assert_eq!(w.performed("OpenChannel"), 0);
}

#[test]
fn failed_home_command_reports_its_status() {
    let mut w = world();
    w.exit_status = 127;
    let f = failure(w.run(connect_to_pi("ada".to_string(), None)));
    assert_eq!(f.kind, ErrorKind::RemoteProtocol);
    assert_eq!(f.message, "Command to get home directory failed with exit status: 127");
    w.exit_status = -1;
    let f = failure(w.run(connect_to_pi("ada".to_string(), None)));
    assert_eq!(f.message, "Command to get home directory failed with exit status: -1");
}

#[test]
fn home_directory_is_trimmed() {
    let mut w = world();
    w.home_output = "  \t/home/pi \r\n\n".to_string();
    w.list("ada", None);
    assert!(w.log.contains(&"Stat { path: \"/home/pi/pi-interface\" }".to_string()));
}

#[test]
fn unreachable_file_system_is_reported_as_such() {
    let mut w = world();
    w.sftp = false;
    let f = failure(w.run(connect_to_pi("ada".to_string(), None)));
    assert_eq!(f.kind, ErrorKind::RemoteProtocol);
    assert_eq!(f.message, "Failed to create SFTP session: no channel");
    assert_eq!(w.performed("MakeDir"), 0);
    let f = failure(w.run(delete_files("ada".to_string(), vec![], strings(&["x"]))));
    assert_eq!(f.message, "Failed to create SFTP session: no channel");
    let f = failure(w.run(download_files("ada".to_string(), vec![], strings(&["x", "y"]))));
    assert_eq!(f.message, "Failed to create SFTP session: no channel");
    assert_eq!(w.performed("CreateTemp"), 0);
}

#[test]
fn workspace_that_cannot_be_created_fails() {
    let mut w = world();
    w.nodes.clear();
    let f = failure(w.run(connect_to_pi("ada".to_string(), None)));
    assert_eq!(f.kind, ErrorKind::RemoteProtocol);
    assert_eq!(
        f.message,
        "Failed to create base directory /home/pi/pi-interface: no such directory"
    );
    let mut w = world();
    w.nodes.insert("/home/pi/pi-interface".to_string(), Node::Dir);
    w.fail_on = Some("MakeDir".to_string());
    let f = failure(w.run(connect_to_pi("ada".to_string(), None)));
    assert_eq!(f.message, "Failed to create user directory /home/pi/pi-interface/ada: boom");
}

#[test]
fn listing_what_is_not_a_directory_fails() {
    let mut w = world();
    let f = failure(w.run(connect_to_pi("ada".to_string(), Some("nowhere".to_string()))));
    assert_eq!(f.kind, ErrorKind::RemoteProtocol);
    assert_eq!(
        f.message,
        "Failed to read directory /home/pi/pi-interface/ada/nowhere: not a directory"
    );
}

#[test]
fn reading_and_saving_fail_with_their_own_messages() {
    let mut w = world();
    w.list("ada", None);
    let f = failure(w.run(read_file("ada".to_string(), vec![], "n".to_string())));
    assert_eq!(f.message, "Failed to open file '/home/pi/pi-interface/ada/n': no such file");
    w.nodes.insert("/home/pi/pi-interface/ada/bin".to_string(), Node::File(vec![0xff, 0xfe]));
    let f = failure(w.run(read_file("ada".to_string(), vec![], "bin".to_string())));
    assert_eq!(
        f.message,
        "Failed to read file '/home/pi/pi-interface/ada/bin': stream did not contain valid UTF-8"
    );
    let f = failure(w.run(save_file(
        "ada".to_string(),
        strings(&["missing"]),
        "n".to_string(),
        "x".to_string(),
    )));
    assert_eq!(
        f.message,
        "Failed to create file '/home/pi/pi-interface/ada/missing/n': no such directory"
    );
    w.fail_on = Some("WriteRemoteText".to_string());
    let f = failure(w.run(save_file("ada".to_string(), vec![], "n".to_string(), "x".to_string())));
    assert_eq!(f.message, "Failed to write to file '/home/pi/pi-interface/ada/n': boom");
}

#[test]
fn names_are_joined_as_they_are() {
    let mut w = world();
    w.list("ada", None);
    w.log.clear();
    let _ = w.run(create_folder("ada".to_string(), strings(&["..", "bob"]), "../x/y".to_string()));
    assert!(w
        .log
        .contains(&"MakeDir { path: \"/home/pi/pi-interface/ada/../bob/../x/y\", mode: 493 }".to_string()));
}

#[test]
fn every_command_opens_its_own_session() {
    let mut w = world();
    w.list("ada", None);
    w.list("ada", None);
    assert_eq!(w.performed("Connect"), 2);
    assert_eq!(w.performed("Authenticate"), 2);
    assert_eq!(w.performed("LoadSetting"), 6);
}

#[test]
fn a_reply_of_the_wrong_shape_is_a_failure() {
    let turn = create_folder("ada".to_string(), vec![], "d".to_string());
    let operation = match turn {
        Turn::Perform(operation, Action::LoadEnvironment) => operation,
        other => panic!("unexpected first turn: {:?}", matches!(other, Turn::Perform(..))),
    };
    let operation = match operation.step(Reply::Done) {
        Turn::Perform(operation, Action::LoadSetting { key }) => {
            assert_eq!(key, "VITE_PI_IP");
            operation
        }
        _ => panic!("no setting asked for"),
    };
    match operation.step(Reply::Data(vec![1, 2, 3])) {
        Turn::Failed(f) => {
            assert_eq!(f.kind, ErrorKind::Config);
            assert_eq!(f.message, "Failed to load VITE_PI_IP: unexpected reply");
        }
        _ => panic!("no failure"),
    }
}

#[test]
fn no_action_moves_more_than_a_buffer_holds() {
    let mut w = world();
    w.list("ada", None);
    let root = "/home/pi/pi-interface/ada";
    w.nodes.insert(format!("{}/big", root), Node::File(vec![3; 3 * CHUNK_SIZE + 17]));
    w.nodes.insert(format!("{}/small", root), Node::File(vec![4; 17]));
    w.local.insert("/l/up".to_string(), vec![5; CHUNK_SIZE + 1]);
    w.run(download_files("ada".to_string(), vec![], strings(&["big"]))).unwrap();
    w.run(download_files("ada".to_string(), vec![], strings(&["big", "small"]))).unwrap();
    w.run(upload_files("ada".to_string(), vec![], strings(&["/l/up"]))).unwrap();
    let limit = format!("limit: {} }}", CHUNK_SIZE);
    let mut moved = 0;
    for action in &w.log {
        if action.starts_with("ReadRemote") || action.starts_with("ReadLocal") {
            assert!(action.ends_with(&limit), "{}", action);
            moved += 1;
        }
        if action.starts_with("Write") && action.contains("len: ") {
            let len: usize =
                action.split("len: ").nth(1).unwrap().trim_end_matches(" }").parse().unwrap();
            assert!(len <= CHUNK_SIZE, "{}", action);
        }
    }
    assert_eq!(moved, 5 + (5 + 2) + 3);
}

#[test]
fn renaming_to_another_extension_changes_the_kind_shown() {
    let mut w = world();
    w.list("ada", None);
    w.nodes.insert("/home/pi/pi-interface/ada/a.txt".to_string(), Node::File(vec![1; 6]));
    w.run(rename_file("ada".to_string(), vec![], "a.txt".to_string(), "a.MD".to_string())).unwrap();
    let files = w.list("ada", None);
    assert_eq!(names(&files), strings(&["a.MD"]));
    assert_eq!(files[0].file_type, "md");
    assert_eq!(files[0].size, 6);
}

#[test]
fn archive_that_cannot_be_named_fails_and_releases() {
    let mut w = world();
    w.list("ada", None);
    w.nodes.insert("/home/pi/pi-interface/ada/a".to_string(), Node::File(vec![1; 4]));
    w.nodes.insert("/home/pi/pi-interface/ada/b".to_string(), Node::File(vec![2; 4]));
    w.clock = i64::MAX;
    let f = failure(w.run(download_files("ada".to_string(), vec![], strings(&["a", "b"]))));
    assert_eq!(f.kind, ErrorKind::Archive);
    assert_eq!(f.message, "Failed to name the zip file");
    assert_eq!(w.released, 1);
    assert!(w.moved.is_empty());
}

#[test]
fn archive_passes_by_what_is_neither_file_nor_directory() {
    let mut w = world();
    w.list("ada", None);
    w.nodes.insert("/home/pi/pi-interface/ada/a".to_string(), Node::File(vec![1; 4]));
    w.nodes.insert("/home/pi/pi-interface/ada/l".to_string(), Node::Link);
    let done = w.run(download_files("ada".to_string(), vec![], strings(&["a", "l"])));
    assert!(matches!(done, Ok(Outcome::Done)));
    assert_eq!(w.moved.values().next().unwrap().len(), 1);
}

#[test]
fn saving_into_a_workspace_that_is_not_there_creates_it_first() {
    let mut w = world();
    let saved =
        w.run(save_file("ada".to_string(), vec![], "note.txt".to_string(), "hello".to_string()));
    assert!(matches!(saved, Ok(Outcome::Done)));
    assert!(matches!(w.nodes.get("/home/pi/pi-interface"), Some(Node::Dir)));
    assert!(matches!(w.nodes.get("/home/pi/pi-interface/ada"), Some(Node::Dir)));
    assert!(
        matches!(w.nodes.get("/home/pi/pi-interface/ada/note.txt"), Some(Node::File(d)) if d == b"hello")
    );
    let remote: Vec<String> = w
        .log
        .iter()
        .filter(|a| {
            a.starts_with("Stat") || a.starts_with("MakeDir") || a.starts_with("CreateRemote")
        })
        .cloned()
        .collect();
    assert_eq!(
        remote,
        strings(&[
            "Stat { path: \"/home/pi/pi-interface\" }",
            "MakeDir { path: \"/home/pi/pi-interface\", mode: 493 }",
            "Stat { path: \"/home/pi/pi-interface/ada\" }",
            "MakeDir { path: \"/home/pi/pi-interface/ada\", mode: 493 }",
            "CreateRemote { path: \"/home/pi/pi-interface/ada/note.txt\" }",
        ])
    );
}

#[test]
fn every_command_makes_sure_of_the_workspace_first() {
    let commands: Vec<(&str, Box<dyn Fn() -> Turn<Operation>>)> = vec![
        ("list", Box::new(|| connect_to_pi("bo".to_string(), None))),
        ("download", Box::new(|| download_files("bo".to_string(), vec![], strings(&["x"])))),
        ("archive", Box::new(|| download_files("bo".to_string(), vec![], vec![]))),
        ("upload", Box::new(|| upload_files("bo".to_string(), vec![], strings(&["/l/f"])))),
        ("folder", Box::new(|| create_folder("bo".to_string(), vec![], "d".to_string()))),
        (
            "rename",
            Box::new(|| rename_file("bo".to_string(), vec![], "a".to_string(), "b".to_string())),
        ),
        ("delete", Box::new(|| delete_files("bo".to_string(), vec![], strings(&["x"])))),
        ("read", Box::new(|| read_file("bo".to_string(), vec![], "f".to_string()))),
        (
            "save",
            Box::new(|| save_file("bo".to_string(), vec![], "f".to_string(), "t".to_string())),
        ),
    ];
    for (name, command) in commands {
        let mut w = world();
        let _ = w.run(command());
        let after_session: Vec<String> =
            w.log.iter().skip_while(|a| !a.starts_with("ExitStatus")).skip(1).take(4).cloned().collect();
        assert_eq!(
            after_session,
            strings(&[
                "Stat { path: \"/home/pi/pi-interface\" }",
                "MakeDir { path: \"/home/pi/pi-interface\", mode: 493 }",
                "Stat { path: \"/home/pi/pi-interface/bo\" }",
                "MakeDir { path: \"/home/pi/pi-interface/bo\", mode: 493 }",
            ]),
            "for {}",
            name
        );
        w.log.clear();
        let _ = w.run(command());
        assert_eq!(w.performed("MakeDir { path: \"/home/pi/pi-interface\","), 0, "for {}", name);
        assert_eq!(w.performed("MakeDir { path: \"/home/pi/pi-interface/bo\","), 0, "for {}", name);
        let again: Vec<String> =
            w.log.iter().skip_while(|a| !a.starts_with("ExitStatus")).skip(1).take(2).cloned().collect();
        assert_eq!(
            again,
            strings(&[
                "Stat { path: \"/home/pi/pi-interface\" }",
                "Stat { path: \"/home/pi/pi-interface/bo\" }",
            ]),
            "for {}",
            name
        );
    }
}

#[test]
fn a_command_fails_where_the_workspace_cannot_be_made() {
    let mut w = world();
    w.nodes.clear();
    let f = failure(w.run(save_file("ada".to_string(), vec![], "n".to_string(), "x".to_string())));
    assert_eq!(f.kind, ErrorKind::RemoteProtocol);
    assert_eq!(f.message, "Failed to create base directory /home/pi/pi-interface: no such directory");
    assert_eq!(w.performed("CreateRemote"), 0);
}

#[test]
fn archives_of_one_second_do_not_replace_each_other() {
    let mut w = world();
    let root = "/home/pi/pi-interface/ada";
    w.list("ada", None);
    w.nodes.insert(format!("{}/a", root), Node::File(vec![1; 3]));
    w.nodes.insert(format!("{}/b", root), Node::File(vec![2; 4]));
    w.nodes.insert(format!("{}/c", root), Node::File(vec![3; 5]));
    w.run(download_files("ada".to_string(), vec![], strings(&["a", "b"]))).unwrap();
    w.run(download_files("ada".to_string(), vec![], strings(&["b", "c"]))).unwrap();
    w.run(download_files("ada".to_string(), vec![], strings(&["c", "a"]))).unwrap();
    let names: Vec<String> = w.moved.keys().cloned().collect();
    assert_eq!(
        names,
        strings(&[
            "/tmp/Downloads/downloaded_files_20231114221320.zip",
            "/tmp/Downloads/downloaded_files_20231114221320_1.zip",
            "/tmp/Downloads/downloaded_files_20231114221320_2.zip",
        ])
    );
    let first: Vec<String> = w.moved[&names[0]].iter().map(|e| e.0.clone()).collect();
    let second: Vec<String> = w.moved[&names[1]].iter().map(|e| e.0.clone()).collect();
    let third: Vec<String> = w.moved[&names[2]].iter().map(|e| e.0.clone()).collect();
    assert_eq!(first, strings(&["a", "b"]));
    assert_eq!(second, strings(&["b", "c"]));
    assert_eq!(third, strings(&["c", "a"]));
    w.clock += 1;
    w.run(download_files("ada".to_string(), vec![], strings(&["a", "c"]))).unwrap();
    assert!(w.moved.contains_key("/tmp/Downloads/downloaded_files_20231114221321.zip"));
    assert_eq!(w.moved.len(), 4);
    assert_eq!(w.released, 4);
}

#[test]
fn archive_does_not_replace_a_file_of_its_name() {
    let mut w = world();
    w.list("ada", None);
    w.local.insert("/tmp/Downloads/downloaded_files_20231114221320.zip".to_string(), vec![9; 9]);
    w.run(download_files("ada".to_string(), vec![], vec![])).unwrap();
    assert!(w.local["/tmp/Downloads/downloaded_files_20231114221320.zip"] == vec![9; 9]);
    assert!(w.moved.contains_key("/tmp/Downloads/downloaded_files_20231114221320_1.zip"));
    assert_eq!(w.performed("ClaimLocal"), 2);
}

#[test]
fn archives_that_run_side_by_side_do_not_collide() {
    let mut w = world();
    w.list("ada", None);
    w.nodes.insert("/home/pi/pi-interface/ada/a".to_string(), Node::File(vec![1; 3]));
    // the first download goes on until it is about to move its archive
    let mut first = download_files("ada".to_string(), vec![], strings(&["a", "a"]));
    let held = loop {
        match first {
            Turn::Perform(operation, Action::MoveArchive { to }) => break (operation, to),
            Turn::Perform(operation, action) => {
                let reply = w.perform(action);
                first = operation.step(reply);
            }
            _ => panic!("the first download ended early"),
        }
    };
    let kept = std::mem::take(&mut w.archive);
    // the second runs from start to end in the meantime
    w.run(download_files("ada".to_string(), vec![], vec![])).unwrap();
    assert!(w.moved.contains_key("/tmp/Downloads/downloaded_files_20231114221320_1.zip"));
    // and the first moves its archive to the place that it claimed
    w.archive = kept;
    let (operation, to) = held;
    assert_eq!(to, "/tmp/Downloads/downloaded_files_20231114221320.zip");
    let reply = w.perform(Action::MoveArchive { to });
    assert!(matches!(w.run(operation.step(reply)), Ok(Outcome::Done)));
    assert_eq!(w.moved.len(), 2);
    assert_eq!(w.moved["/tmp/Downloads/downloaded_files_20231114221320.zip"].len(), 2);
    assert!(w.moved["/tmp/Downloads/downloaded_files_20231114221320_1.zip"].is_empty());
}
