//! The parts of the commands, each stepped by hand.

use pi_interface::archive::ZipDownload;
use pi_interface::failure::ErrorKind;
use pi_interface::fileops::FileOp;
use pi_interface::protocol::{Action, Outcome, Reply, Topic, Turn};
use pi_interface::removal::Removal;
use pi_interface::session::Session;
use pi_interface::stat::{RemoteEntry, RemoteStat};
use pi_interface::transfer::{Download, Upload};
use pi_interface::workspace::{Provision, DIRECTORY_MODE};
use pi_interface::CHUNK_SIZE;

fn file_stat(size: Option<u64>) -> RemoteStat {
    RemoteStat { size, perm: Some(0o100644), mtime: None }
}

fn dir_stat() -> RemoteStat {
    RemoteStat { size: None, perm: Some(0o040755), mtime: None }
}

/// Takes one step and gives what is to be performed next.
fn perform<M>(turn: Turn<M>) -> (M, Action) {
    match turn {
        Turn::Perform(m, a) => (m, a),
        Turn::Finished(o) => panic!("finished with {:?}", o),
        Turn::Failed(f) => panic!("failed with {:?}", f),
    }
}

#[test]
fn buffer_is_one_mebibyte() {
    assert_eq!(CHUNK_SIZE, 1024 * 1024);
    assert_eq!(DIRECTORY_MODE, 0o755);
}

#[test]
fn session_asks_in_order() {
    let replies = vec![
        Reply::Done,
        Reply::Text("host".to_string()),
        Reply::Text("user".to_string()),
        Reply::Text("secret".to_string()),
        Reply::Done,
        Reply::Done,
        Reply::Done,
        Reply::Done,
        Reply::Flag(true),
        Reply::Done,
        Reply::Done,
        Reply::Text(" /home/user\n".to_string()),
        Reply::Done,
        Reply::Code(0),
    ];
    let mut asked = Vec::new();
    let mut turn = Session::start();
    for reply in replies {
        let (session, action) = perform(turn);
        asked.push(format!("{:?}", action));
        turn = session.step(reply);
    }
    assert_eq!(
        asked,
        vec![
            "LoadEnvironment",
            "LoadSetting { key: \"VITE_PI_IP\" }",
            "LoadSetting { key: \"VITE_PI_USERNAME\" }",
            "LoadSetting { key: \"VITE_PI_PASSWORD\" }",
            "Connect { address: \"host:22\" }",
            "CreateSession",
            "Handshake",
            "Authenticate { username: \"user\", password: \"secret\" }",
            "CheckAuthenticated",
            "OpenChannel",
            "Execute { command: \"echo $HOME\" }",
            "ReadOutput",
            "CloseChannel",
            "ExitStatus",
        ]
    );
    assert!(matches!(turn, Turn::Finished(Outcome::Content(home)) if home == "/home/user"));
}

#[test]
fn workspace_is_made_where_it_is_missing() {
    let (p, a) = perform(Provision::start("/h".to_string(), "u".to_string()));
    assert!(matches!(a, Action::Stat { path } if path == "/h/pi-interface"));
    let (p, a) = perform(p.step(Reply::Failed("absent".to_string())));
    assert!(matches!(a, Action::MakeDir { path, mode: 0o755 } if path == "/h/pi-interface"));
    let (p, a) = perform(p.step(Reply::Done));
    assert!(matches!(a, Action::Stat { path } if path == "/h/pi-interface/u"));
    match p.step(Reply::Stat(dir_stat())) {
        Turn::Finished(Outcome::Content(root)) => assert_eq!(root, "/h/pi-interface/u"),
        _ => panic!("no workspace"),
    }
    let (p, _) = perform(Provision::start("/h".to_string(), "u".to_string()));
    let (p, _) = perform(p.step(Reply::Stat(dir_stat())));
    let (p, a) = perform(p.step(Reply::Absent));
    assert!(matches!(a, Action::MakeDir { path, mode: 0o755 } if path == "/h/pi-interface/u"));
    match p.step(Reply::Failed("denied".to_string())) {
        Turn::Failed(f) => {
            assert_eq!(f.message, "Failed to create user directory /h/pi-interface/u: denied")
        }
        _ => panic!("no failure"),
    }
}

#[test]
fn directory_is_listed_in_the_order_of_the_host() {
    let (op, a) = perform(FileOp::list("/h/pi-interface/u/x/y".to_string()));
    assert!(matches!(a, Action::ReadDir { path } if path == "/h/pi-interface/u/x/y"));
    let entries = vec![
        RemoteEntry { path: "/h/pi-interface/u/x/y/f.RS".to_string(), stat: file_stat(Some(3)) },
        RemoteEntry { path: "/h/pi-interface/u/x/y/d".to_string(), stat: dir_stat() },
    ];
    match op.step(Reply::Entries(entries)) {
        Turn::Finished(Outcome::Listing(files)) => {
            assert_eq!(files.len(), 2);
            assert_eq!(files[0].name, "f.RS");
            assert_eq!(files[0].file_type, "rs");
            assert_eq!(files[1].file_type, "Folder");
        }
        _ => panic!("no listing"),
    }
    let (op, _) = perform(FileOp::list("/w".to_string()));
    match op.step(Reply::Failed("gone".to_string())) {
        Turn::Failed(f) => assert_eq!(f.message, "Failed to read directory /w: gone"),
        _ => panic!("no failure"),
    }
}

#[test]
fn download_needs_a_size_and_a_name() {
    let (d, _) = perform(Download::start("/w/f".to_string()));
    match d.step(Reply::Stat(file_stat(None))) {
        Turn::Failed(f) => {
            assert_eq!(f.kind, ErrorKind::RemoteProtocol);
            assert_eq!(f.message, "Failed to get file size");
        }
        _ => panic!("no failure"),
    }
    let (d, _) = perform(Download::start("/w/..".to_string()));
    let (d, a) = perform(d.step(Reply::Stat(file_stat(Some(1)))));
    assert!(matches!(a, Action::Emit { topic: Topic::TotalSize, value: 1 }));
    let (d, _) = perform(d.step(Reply::Done));
    match d.step(Reply::Done) {
        Turn::Failed(f) => {
            assert_eq!(f.kind, ErrorKind::Path);
            assert_eq!(f.message, "Failed to get file name of '/w/..'");
        }
        _ => panic!("no failure"),
    }
}

#[test]
fn download_closes_and_flushes_at_the_end() {
    let (d, _) = perform(Download::start("/w/f.txt".to_string()));
    let (d, _) = perform(d.step(Reply::Stat(file_stat(Some(5)))));
    let (d, a) = perform(d.step(Reply::Done));
    assert!(matches!(a, Action::OpenRemote { path } if path == "/w/f.txt"));
    let (d, a) = perform(d.step(Reply::Done));
    assert!(matches!(a, Action::LocateLocal { name } if name == "f.txt"));
    let (d, a) = perform(d.step(Reply::Text("C:\\dl\\f.txt".to_string())));
    assert!(matches!(a, Action::CreateLocal { path } if path == "C:\\dl\\f.txt"));
    let (d, a) = perform(d.step(Reply::Done));
    assert!(matches!(a, Action::ReadRemote { limit: CHUNK_SIZE }));
    let (d, a) = perform(d.step(Reply::Data(b"hello".to_vec())));
    assert!(matches!(a, Action::WriteLocal { data } if data == b"hello".to_vec()));
    let (d, a) = perform(d.step(Reply::Done));
    assert!(matches!(a, Action::Emit { topic: Topic::DownloadProgress, value: 5 }));
    let (d, a) = perform(d.step(Reply::Absent));
    assert!(matches!(a, Action::ReadRemote { .. }));
    let (d, a) = perform(d.step(Reply::Data(Vec::new())));
    assert!(matches!(a, Action::CloseRemote));
    let (d, a) = perform(d.step(Reply::Done));
    assert!(matches!(a, Action::FlushLocal));
    assert!(matches!(d.step(Reply::Done), Turn::Finished(Outcome::Saved(p)) if p == "C:\\dl\\f.txt"));
}

#[test]
fn read_that_overruns_the_buffer_is_a_failure() {
    let (d, _) = perform(Download::start("/w/f".to_string()));
    let (d, _) = perform(d.step(Reply::Stat(file_stat(Some(5)))));
    let (d, _) = perform(d.step(Reply::Done));
    let (d, _) = perform(d.step(Reply::Done));
    let (d, _) = perform(d.step(Reply::Text("/dl/f".to_string())));
    let (d, _) = perform(d.step(Reply::Done));
    match d.step(Reply::Data(vec![0; CHUNK_SIZE + 1])) {
        Turn::Failed(f) => assert_eq!(f.message, "Failed to read remote file '/w/f': unexpected reply"),
        _ => panic!("no failure"),
    }
}

#[test]
fn upload_steps_fail_with_their_own_messages() {
    let fresh = || Upload::start("/w/r".to_string(), "/l/f".to_string());
    let cases: Vec<(Vec<Reply>, ErrorKind, &str)> = vec![
        (vec![], ErrorKind::RemoteProtocol, "Failed to create remote file '/w/r': no"),
        (vec![Reply::Done], ErrorKind::LocalIo, "Failed to open local file '/l/f': no"),
        (vec![Reply::Done, Reply::Done], ErrorKind::LocalIo, "Failed to get file metadata '/l/f': no"),
        (
            vec![Reply::Done, Reply::Done, Reply::Size(9), Reply::Done],
            ErrorKind::LocalIo,
            "Failed to read from local file '/l/f': no",
        ),
        (
            vec![Reply::Done, Reply::Done, Reply::Size(9), Reply::Done, Reply::Data(vec![7; 9])],
            ErrorKind::RemoteProtocol,
            "Failed to write to remote file '/w/r': no",
        ),
        (
            vec![Reply::Done, Reply::Done, Reply::Size(0), Reply::Done, Reply::Data(Vec::new())],
            ErrorKind::RemoteProtocol,
            "Failed to close remote file '/w/r': no",
        ),
    ];
    for (replies, kind, message) in cases {
        let mut turn = fresh();
        for reply in replies {
            turn = perform(turn).0.step(reply);
        }
        match perform(turn).0.step(Reply::Failed("no".to_string())) {
            Turn::Failed(f) => {
                assert_eq!(f.kind, kind);
                assert_eq!(f.message, message);
            }
            _ => panic!("no failure"),
        }
    }
}

#[test]
fn removal_uses_the_paths_that_the_host_lists() {
    let (r, a) = perform(Removal::start("/w".to_string(), vec!["d".to_string()]));
    assert!(matches!(a, Action::Stat { path } if path == "/w/d"));
    let (r, a) = perform(r.step(Reply::Stat(dir_stat())));
    assert!(matches!(a, Action::ReadDir { path } if path == "/w/d"));
    let listed = vec![
        RemoteEntry { path: "/w/d/./odd name".to_string(), stat: file_stat(Some(1)) },
        RemoteEntry { path: "/w/d/sub".to_string(), stat: file_stat(Some(1)) },
    ];
    let (r, a) = perform(r.step(Reply::Entries(listed)));
    assert!(matches!(a, Action::Stat { path } if path == "/w/d/./odd name"));
    let (r, a) = perform(r.step(Reply::Stat(file_stat(None))));
    assert!(matches!(a, Action::Unlink { path } if path == "/w/d/./odd name"));
    let (r, a) = perform(r.step(Reply::Done));
    assert!(matches!(a, Action::Stat { path } if path == "/w/d/sub"));
    let (r, a) = perform(r.step(Reply::Stat(dir_stat())));
    assert!(matches!(a, Action::ReadDir { path } if path == "/w/d/sub"));
    let (r, a) = perform(r.step(Reply::Entries(vec![])));
    assert!(matches!(a, Action::RemoveDir { path } if path == "/w/d/sub"));
    let (r, a) = perform(r.step(Reply::Done));
    assert!(matches!(a, Action::RemoveDir { path } if path == "/w/d"));
    assert!(matches!(r.step(Reply::Done), Turn::Finished(Outcome::Done)));
}

#[test]
fn removal_fails_with_the_path_at_hand() {
    let (r, _) = perform(Removal::start("/w".to_string(), vec!["d".to_string()]));
    let (r, _) = perform(r.step(Reply::Stat(dir_stat())));
    let (r, _) = perform(r.step(Reply::Entries(vec![])));
    match r.step(Reply::Failed("busy".to_string())) {
        Turn::Failed(f) => assert_eq!(f.message, "Failed to delete directory '/w/d': busy"),
        _ => panic!("no failure"),
    }
    let (r, _) = perform(Removal::start("/w".to_string(), vec!["d".to_string()]));
    let (r, _) = perform(r.step(Reply::Stat(dir_stat())));
    match r.step(Reply::Failed("denied".to_string())) {
        Turn::Failed(f) => assert_eq!(f.message, "Failed to read directory '/w/d': denied"),
        _ => panic!("no failure"),
    }
    let (r, _) = perform(Removal::start("/w".to_string(), vec!["f".to_string()]));
    let (r, _) = perform(r.step(Reply::Stat(file_stat(None))));
    match r.step(Reply::Failed("denied".to_string())) {
        Turn::Failed(f) => assert_eq!(f.message, "Failed to delete file '/w/f': denied"),
        _ => panic!("no failure"),
    }
}

#[test]
fn single_entry_operations() {
    let (_, a) = perform(FileOp::create_folder("/w", "new"));
    assert!(matches!(a, Action::MakeDir { path, mode: 0o755 } if path == "/w/new"));
    let (op, a) = perform(FileOp::rename("/w", "a", "b"));
    assert!(matches!(a, Action::Rename { from, to } if from == "/w/a" && to == "/w/b"));
    assert!(matches!(op.step(Reply::Done), Turn::Finished(Outcome::Done)));
    let (op, a) = perform(FileOp::read("/w", "t"));
    assert!(matches!(a, Action::OpenRemote { path } if path == "/w/t"));
    let (op, a) = perform(op.step(Reply::Done));
    assert!(matches!(a, Action::ReadRemoteText));
    assert!(matches!(op.step(Reply::Text("héllo".to_string())), Turn::Finished(Outcome::Content(t)) if t == "héllo"));
    let (op, a) = perform(FileOp::save("/w", "t", "body".to_string()));
    assert!(matches!(a, Action::CreateRemote { path } if path == "/w/t"));
    let (op, a) = perform(op.step(Reply::Done));
    assert!(matches!(a, Action::WriteRemoteText { content } if content == "body"));
    assert!(matches!(op.step(Reply::Done), Turn::Finished(Outcome::Done)));
}

#[test]
fn archive_entry_without_a_name_fails_after_release() {
    let (z, a) = perform(ZipDownload::start("/w".to_string(), vec!["d".to_string(), "e".to_string()]));
    assert!(matches!(a, Action::CreateTemp));
    let (z, a) = perform(z.step(Reply::Done));
    assert!(matches!(a, Action::CreateArchive));
    let (z, a) = perform(z.step(Reply::Done));
    assert!(matches!(a, Action::Stat { path } if path == "/w/d"));
    let (z, a) = perform(z.step(Reply::Stat(dir_stat())));
    assert!(matches!(a, Action::Stat { path } if path == "/w/e"));
    let (z, a) = perform(z.step(Reply::Stat(file_stat(Some(u64::MAX)))));
    assert!(matches!(a, Action::Emit { topic: Topic::TotalSize, value: u64::MAX }));
    let (z, a) = perform(z.step(Reply::Done));
    assert!(matches!(a, Action::Stat { path } if path == "/w/d"));
    let (z, a) = perform(z.step(Reply::Stat(dir_stat())));
    assert!(matches!(a, Action::ReadDir { path } if path == "/w/d"));
    let listed = vec![
        RemoteEntry { path: "/w/d/pipe".to_string(), stat: RemoteStat { size: Some(4), perm: Some(0o010644), mtime: None } },
        RemoteEntry { path: "/w/d/..".to_string(), stat: file_stat(Some(6)) },
    ];
    let (z, a) = perform(z.step(Reply::Entries(listed)));
    assert!(matches!(a, Action::Emit { topic: Topic::TotalSize, value: 10 }));
    let (z, a) = perform(z.step(Reply::Done));
    assert!(matches!(a, Action::DiscardTemp));
    match z.step(Reply::Done) {
        Turn::Failed(f) => {
            assert_eq!(f.kind, ErrorKind::Path);
            assert_eq!(f.message, "Failed to get file name in directory '/w/d'");
        }
        _ => panic!("no failure"),
    }
}

#[test]
fn archive_file_needs_a_size() {
    let (z, _) = perform(ZipDownload::start("/w".to_string(), vec!["f".to_string(), "g".to_string()]));
    let (z, _) = perform(z.step(Reply::Done));
    let (z, _) = perform(z.step(Reply::Done));
    let (z, _) = perform(z.step(Reply::Stat(file_stat(None))));
    let (z, a) = perform(z.step(Reply::Stat(file_stat(None))));
    assert!(matches!(a, Action::Emit { topic: Topic::TotalSize, value: 0 }));
    let (z, a) = perform(z.step(Reply::Done));
    assert!(matches!(a, Action::Stat { path } if path == "/w/f"));
    let (z, a) = perform(z.step(Reply::Stat(file_stat(None))));
    assert!(matches!(a, Action::Stat { path } if path == "/w/f"));
    let (z, a) = perform(z.step(Reply::Stat(file_stat(None))));
    assert!(matches!(a, Action::DiscardTemp));
    match z.step(Reply::Failed("ignored".to_string())) {
        Turn::Failed(f) => {
            assert_eq!(f.kind, ErrorKind::RemoteProtocol);
            assert_eq!(f.message, "Failed to get file size");
        }
        _ => panic!("no failure"),
    }
}
