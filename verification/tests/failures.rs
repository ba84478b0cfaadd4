//! Failures and their messages; the names of topics and of archives.

use pi_interface::archive::{
    archive_candidate, archive_file_name, archive_file_name_at, size_of_entries,
};
use pi_interface::failure::{ErrorKind, Fault, Wording};
use pi_interface::protocol::{break_down, Reply, Topic};
use pi_interface::stat::{RemoteEntry, RemoteStat};

#[test]
fn messages_of_faults() {
    let cases = [
        (Fault::Setting, ErrorKind::Config, "Failed to load S: D"),
        (Fault::Connect, ErrorKind::Connection, "Failed to connect to S: D"),
        (Fault::CreateSession, ErrorKind::Connection, "Failed to create SSH session: D"),
        (Fault::Handshake, ErrorKind::Connection, "SSH handshake failed: D"),
        (Fault::Authenticate, ErrorKind::Connection, "SSH authentication failed: D"),
        (Fault::NotAuthenticated, ErrorKind::Connection, "Authentication failed"),
        (Fault::OpenChannel, ErrorKind::RemoteProtocol, "Failed to create channel session: D"),
        (
            Fault::Execute,
            ErrorKind::RemoteProtocol,
            "Failed to execute command to get home directory: D",
        ),
        (Fault::ReadOutput, ErrorKind::RemoteProtocol, "Failed to read home directory: D"),
        (Fault::CloseChannel, ErrorKind::RemoteProtocol, "Failed to close channel: D"),
        (Fault::ExitStatus, ErrorKind::RemoteProtocol, "Failed to get exit status: D"),
        (
            Fault::CommandFailed,
            ErrorKind::RemoteProtocol,
            "Command to get home directory failed with exit status: D",
        ),
        (Fault::OpenSftp, ErrorKind::RemoteProtocol, "Failed to create SFTP session: D"),
        (Fault::CreateBase, ErrorKind::RemoteProtocol, "Failed to create base directory S: D"),
        (Fault::CreateUser, ErrorKind::RemoteProtocol, "Failed to create user directory S: D"),
        (Fault::ListDirectory, ErrorKind::RemoteProtocol, "Failed to read directory S: D"),
        (Fault::StatRemoteFile, ErrorKind::RemoteProtocol, "Failed to stat remote file 'S': D"),
        (Fault::NoFileSize, ErrorKind::RemoteProtocol, "Failed to get file size"),
        (Fault::OpenRemoteFile, ErrorKind::RemoteProtocol, "Failed to open remote file 'S': D"),
        (Fault::ReadRemoteFile, ErrorKind::RemoteProtocol, "Failed to read remote file 'S': D"),
        (Fault::CloseRemoteFile, ErrorKind::RemoteProtocol, "Failed to close remote file 'S': D"),
        (Fault::CreateRemoteFile, ErrorKind::RemoteProtocol, "Failed to create remote file 'S': D"),
        (Fault::WriteRemoteFile, ErrorKind::RemoteProtocol, "Failed to write to remote file 'S': D"),
        (Fault::NoDownloads, ErrorKind::LocalIo, "Failed to find the Downloads directory"),
        (Fault::CreateLocalFile, ErrorKind::LocalIo, "Failed to create local file at 'S': D"),
        (Fault::WriteLocalFile, ErrorKind::LocalIo, "Failed to write to local file at 'S': D"),
        (Fault::FlushLocalFile, ErrorKind::LocalIo, "Failed to flush local file at 'S': D"),
        (Fault::OpenLocalFile, ErrorKind::LocalIo, "Failed to open local file 'S': D"),
        (Fault::LocalMetadata, ErrorKind::LocalIo, "Failed to get file metadata 'S': D"),
        (Fault::ReadLocalFile, ErrorKind::LocalIo, "Failed to read from local file 'S': D"),
        (Fault::NoFileName, ErrorKind::Path, "Failed to get file name of 'S'"),
        (Fault::EntryName, ErrorKind::Path, "Failed to get file name in directory 'S'"),
        (Fault::CreateTemp, ErrorKind::LocalIo, "Failed to create temporary directory: D"),
        (Fault::CreateArchive, ErrorKind::LocalIo, "Failed to create zip file: D"),
        (Fault::StartEntry, ErrorKind::Archive, "Failed to add file to zip: D"),
        (Fault::WriteArchive, ErrorKind::Archive, "Failed to write to zip: D"),
        (Fault::FinishArchive, ErrorKind::Archive, "Failed to finalize zip file: D"),
        (Fault::NameArchive, ErrorKind::Archive, "Failed to name the zip file"),
        (Fault::MoveArchive, ErrorKind::LocalIo, "Failed to move zip file to Downloads: D"),
        (Fault::DiscardTemp, ErrorKind::LocalIo, "Failed to clean up temporary files: D"),
        (Fault::ReadDirectory, ErrorKind::RemoteProtocol, "Failed to read directory 'S': D"),
        (Fault::CreateFolder, ErrorKind::RemoteProtocol, "Failed to create folder 'S': D"),
        (Fault::Rename, ErrorKind::RemoteProtocol, "Failed to rename 'S': D"),
        (Fault::Stat, ErrorKind::RemoteProtocol, "Failed to stat 'S': D"),
        (Fault::DeleteFile, ErrorKind::RemoteProtocol, "Failed to delete file 'S': D"),
        (Fault::DeleteDirectory, ErrorKind::RemoteProtocol, "Failed to delete directory 'S': D"),
        (Fault::OpenFile, ErrorKind::RemoteProtocol, "Failed to open file 'S': D"),
        (Fault::ReadFile, ErrorKind::RemoteProtocol, "Failed to read file 'S': D"),
        (Fault::CreateFile, ErrorKind::RemoteProtocol, "Failed to create file 'S': D"),
        (Fault::WriteFile, ErrorKind::RemoteProtocol, "Failed to write to file 'S': D"),
    ];
    for (fault, kind, message) in cases {
        let failure = fault.fail("S", "D");
        assert_eq!(failure.kind, kind, "kind of {:?}", fault);
        assert_eq!(failure.message, message, "message of {:?}", fault);
        assert_eq!(fault.error_kind(), kind);
    }
}

#[test]
fn wordings_of_faults() {
    assert_eq!(Fault::Handshake.message_wording(), Wording::Detail);
    assert_eq!(Fault::Rename.message_wording(), Wording::QuotedSubject);
    assert_eq!(Fault::CreateBase.message_wording(), Wording::PlainSubject);
    assert_eq!(Fault::NoFileSize.message_wording(), Wording::Fixed);
    assert_eq!(Fault::EntryName.message_wording(), Wording::SubjectOnly);
    assert_eq!(Fault::Rename.opening_words(), "Failed to rename '");
}

#[test]
fn breakdowns() {
    let f = break_down(Fault::Rename, "/a", &Reply::Failed("denied".to_string()));
    assert_eq!(f.message, "Failed to rename '/a': denied");
    let f = break_down(Fault::Rename, "/a", &Reply::Unavailable("closed".to_string()));
    assert_eq!(f.kind, ErrorKind::RemoteProtocol);
    assert_eq!(f.message, "Failed to create SFTP session: closed");
    let f = break_down(Fault::WriteArchive, "", &Reply::Absent);
    assert_eq!(f.kind, ErrorKind::Archive);
    assert_eq!(f.message, "Failed to write to zip: unexpected reply");
}

#[test]
fn names_of_topics() {
    assert_eq!(Topic::TotalSize.name(), "total-size");
    assert_eq!(Topic::DownloadProgress.name(), "download-progress");
    assert_eq!(Topic::UploadProgress.name(), "upload-progress");
    assert_eq!(Topic::ZipProgress.name(), "zip-progress");
}

#[test]
fn names_of_archives() {
    assert_eq!(archive_file_name("20240102030405"), "downloaded_files_20240102030405.zip");
    assert_eq!(archive_file_name(""), "downloaded_files_.zip");
    assert_eq!(
        archive_file_name_at(0).as_deref(),
        Some("downloaded_files_19700101000000.zip")
    );
    assert_eq!(
        archive_file_name_at(1_700_000_000).as_deref(),
        Some("downloaded_files_20231114221320.zip")
    );
    assert_eq!(
        archive_file_name_at(951_782_399).as_deref(),
        Some("downloaded_files_20000228235959.zip")
    );
    assert_eq!(
        archive_file_name_at(-1).as_deref(),
        Some("downloaded_files_19691231235959.zip")
    );
    assert_eq!(archive_file_name_at(i64::MAX), None);
    assert_eq!(archive_file_name_at(i64::MIN), None);
}

#[test]
fn sizes_of_entries_add_up_and_stop_at_the_top() {
    let entry = |size: Option<u64>| RemoteEntry {
        path: "/x".to_string(),
        stat: RemoteStat { size, perm: None, mtime: None },
    };
    assert_eq!(size_of_entries(&vec![]), 0);
    assert_eq!(size_of_entries(&vec![entry(Some(5)), entry(None), entry(Some(7))]), 12);
    assert_eq!(size_of_entries(&vec![entry(Some(u64::MAX - 1)), entry(Some(5))]), u64::MAX);
    assert_eq!(
        size_of_entries(&vec![entry(Some(u64::MAX)), entry(Some(u64::MAX)), entry(Some(1))]),
        u64::MAX
    );
}

#[test]
fn names_that_are_tried_for_one_archive_differ() {
    assert_eq!(archive_candidate("20240102030405", 0), "downloaded_files_20240102030405.zip");
    assert_eq!(archive_candidate("20240102030405", 1), "downloaded_files_20240102030405_1.zip");
    assert_eq!(archive_candidate("20240102030405", 12), "downloaded_files_20240102030405_12.zip");
    assert_eq!(
        archive_candidate("2024", u64::MAX),
        "downloaded_files_2024_18446744073709551615.zip"
    );
    let mut seen = std::collections::BTreeSet::new();
    for attempt in 0..200u64 {
        assert!(seen.insert(archive_candidate("19700101000000", attempt)));
    }
    assert_ne!(archive_file_name("20240102030405"), archive_file_name("20240102030406"));
}
