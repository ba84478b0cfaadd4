//! Failures: what went wrong, of which kind, and the message that says so.

use vstd::prelude::*;
use vstd::string::*;

verus! {

/// The kinds of failure.
#[derive(Clone, Copy, Debug, PartialEq, Eq, Structural)]
pub enum ErrorKind {
    /// A required connection setting is missing.
    Config,
    /// The network connection, the handshake or the authentication failed.
    Connection,
    /// An operation on the remote host failed.
    RemoteProtocol,
    /// An operation on a local file failed, or a well-known local directory
    /// is missing.
    LocalIo,
    /// The archive could not be written or completed.
    Archive,
    /// A name cannot be resolved to a final path component.
    Path,
}

/// How the message of a failure is put together from its opening words, the
/// subject (a path, an address, a key) and the detail that came with it.
#[derive(Clone, Copy, Debug, PartialEq, Eq, Structural)]
pub enum Wording {
    /// The opening words, then the detail.
    Detail,
    /// The opening words, the subject, `': `, then the detail.
    QuotedSubject,
    /// The opening words, the subject, `: `, then the detail.
    PlainSubject,
    /// The opening words alone.
    Fixed,
    /// The opening words, the subject, then `'`.
    SubjectOnly,
}

/// The places at which an operation can fail.
#[derive(Clone, Copy, Debug, PartialEq, Eq, Structural)]
pub enum Fault {
    /// A connection setting is missing; the subject is its key.
    Setting,
    /// The network connection could not be opened; the subject is the address.
    Connect,
    /// No session could be set up.
    CreateSession,
    /// The protocol handshake failed.
    Handshake,
    /// The host refused the credentials.
    Authenticate,
    /// The session does not report itself authenticated.
    NotAuthenticated,
    /// No command channel could be opened.
    OpenChannel,
    /// The remote command could not be started.
    Execute,
    /// The output of the remote command could not be read.
    ReadOutput,
    /// The command channel could not be closed.
    CloseChannel,
    /// The exit status of the remote command could not be had.
    ExitStatus,
    /// The remote command ended with a status other than 0; the detail is the status.
    CommandFailed,
    /// The channel to the remote file system could not be opened.
    OpenSftp,
    /// The shared base directory could not be created.
    CreateBase,
    /// The user's directory could not be created.
    CreateUser,
    /// The directory to list could not be read.
    ListDirectory,
    /// A remote file to transfer could not be examined.
    StatRemoteFile,
    /// The host left out the size of a file to transfer.
    NoFileSize,
    /// A remote file could not be opened for reading.
    OpenRemoteFile,
    /// Reading from a remote file failed.
    ReadRemoteFile,
    /// A remote file could not be closed.
    CloseRemoteFile,
    /// A remote file could not be created.
    CreateRemoteFile,
    /// Writing to a remote file failed.
    WriteRemoteFile,
    /// The local downloads directory is not known.
    NoDownloads,
    /// A local file could not be created.
    CreateLocalFile,
    /// Writing to a local file failed.
    WriteLocalFile,
    /// A local file could not be flushed.
    FlushLocalFile,
    /// A local file could not be opened.
    OpenLocalFile,
    /// The size of a local file could not be had.
    LocalMetadata,
    /// Reading from a local file failed.
    ReadLocalFile,
    /// A path has no final component.
    NoFileName,
    /// An entry of a directory has no final component; the subject is the directory.
    EntryName,
    /// No temporary storage could be had.
    CreateTemp,
    /// The archive file could not be created.
    CreateArchive,
    /// An entry could not be started in the archive.
    StartEntry,
    /// Writing to the archive failed.
    WriteArchive,
    /// The archive could not be completed.
    FinishArchive,
    /// The time at which the archive was completed cannot be written as a date.
    NameArchive,
    /// The archive could not be moved to the downloads directory.
    MoveArchive,
    /// The temporary storage could not be released.
    DiscardTemp,
    /// A directory to walk could not be read.
    ReadDirectory,
    /// The new folder could not be created.
    CreateFolder,
    /// The entry could not be renamed; the subject is its old path.
    Rename,
    /// An entry to delete could not be examined.
    Stat,
    /// A file could not be deleted.
    DeleteFile,
    /// An emptied directory could not be removed.
    DeleteDirectory,
    /// The file to read could not be opened.
    OpenFile,
    /// The file could not be read as text.
    ReadFile,
    /// The file to save could not be created.
    CreateFile,
    /// The content could not be written.
    WriteFile,
}

/// A failure: its kind and the message for the caller.
#[derive(Debug)]
pub struct Failure {
    pub kind: ErrorKind,
    pub message: String,
}

/// A [`Failure`] with its message as a sequence of characters.
pub struct FailureModel {
    pub kind: ErrorKind,
    pub message: Seq<char>,
}

impl View for Failure {
    type V = FailureModel;

    open spec fn view(&self) -> FailureModel {
        FailureModel { kind: self.kind, message: self.message@ }
    }
}

impl Fault {
    /// The kind of failure that this fault is.
    pub open spec fn kind(self) -> ErrorKind {
        match self {
            Fault::Setting => ErrorKind::Config,
            Fault::Connect => ErrorKind::Connection,
            Fault::CreateSession => ErrorKind::Connection,
            Fault::Handshake => ErrorKind::Connection,
            Fault::Authenticate => ErrorKind::Connection,
            Fault::NotAuthenticated => ErrorKind::Connection,
            Fault::OpenChannel => ErrorKind::RemoteProtocol,
            Fault::Execute => ErrorKind::RemoteProtocol,
            Fault::ReadOutput => ErrorKind::RemoteProtocol,
            Fault::CloseChannel => ErrorKind::RemoteProtocol,
            Fault::ExitStatus => ErrorKind::RemoteProtocol,
            Fault::CommandFailed => ErrorKind::RemoteProtocol,
            Fault::OpenSftp => ErrorKind::RemoteProtocol,
            Fault::CreateBase => ErrorKind::RemoteProtocol,
            Fault::CreateUser => ErrorKind::RemoteProtocol,
            Fault::ListDirectory => ErrorKind::RemoteProtocol,
            Fault::StatRemoteFile => ErrorKind::RemoteProtocol,
            Fault::NoFileSize => ErrorKind::RemoteProtocol,
            Fault::OpenRemoteFile => ErrorKind::RemoteProtocol,
            Fault::ReadRemoteFile => ErrorKind::RemoteProtocol,
            Fault::CloseRemoteFile => ErrorKind::RemoteProtocol,
            Fault::CreateRemoteFile => ErrorKind::RemoteProtocol,
            Fault::WriteRemoteFile => ErrorKind::RemoteProtocol,
            Fault::NoDownloads => ErrorKind::LocalIo,
            Fault::CreateLocalFile => ErrorKind::LocalIo,
            Fault::WriteLocalFile => ErrorKind::LocalIo,
            Fault::FlushLocalFile => ErrorKind::LocalIo,
            Fault::OpenLocalFile => ErrorKind::LocalIo,
            Fault::LocalMetadata => ErrorKind::LocalIo,
            Fault::ReadLocalFile => ErrorKind::LocalIo,
            Fault::NoFileName => ErrorKind::Path,
            Fault::EntryName => ErrorKind::Path,
            Fault::CreateTemp => ErrorKind::LocalIo,
            Fault::CreateArchive => ErrorKind::LocalIo,
            Fault::StartEntry => ErrorKind::Archive,
            Fault::WriteArchive => ErrorKind::Archive,
            Fault::FinishArchive => ErrorKind::Archive,
            Fault::NameArchive => ErrorKind::Archive,
            Fault::MoveArchive => ErrorKind::LocalIo,
            Fault::DiscardTemp => ErrorKind::LocalIo,
            Fault::ReadDirectory => ErrorKind::RemoteProtocol,
            Fault::CreateFolder => ErrorKind::RemoteProtocol,
            Fault::Rename => ErrorKind::RemoteProtocol,
            Fault::Stat => ErrorKind::RemoteProtocol,
            Fault::DeleteFile => ErrorKind::RemoteProtocol,
            Fault::DeleteDirectory => ErrorKind::RemoteProtocol,
            Fault::OpenFile => ErrorKind::RemoteProtocol,
            Fault::ReadFile => ErrorKind::RemoteProtocol,
            Fault::CreateFile => ErrorKind::RemoteProtocol,
            Fault::WriteFile => ErrorKind::RemoteProtocol,
        }
    }

    /// How the message of this fault is put together.
    pub open spec fn wording(self) -> Wording {
        match self {
            Fault::Setting => Wording::PlainSubject,
            Fault::Connect => Wording::PlainSubject,
            Fault::CreateSession => Wording::Detail,
            Fault::Handshake => Wording::Detail,
            Fault::Authenticate => Wording::Detail,
            Fault::NotAuthenticated => Wording::Fixed,
            Fault::OpenChannel => Wording::Detail,
            Fault::Execute => Wording::Detail,
            Fault::ReadOutput => Wording::Detail,
            Fault::CloseChannel => Wording::Detail,
            Fault::ExitStatus => Wording::Detail,
            Fault::CommandFailed => Wording::Detail,
            Fault::OpenSftp => Wording::Detail,
            Fault::CreateBase => Wording::PlainSubject,
            Fault::CreateUser => Wording::PlainSubject,
            Fault::ListDirectory => Wording::PlainSubject,
            Fault::StatRemoteFile => Wording::QuotedSubject,
            Fault::NoFileSize => Wording::Fixed,
            Fault::OpenRemoteFile => Wording::QuotedSubject,
            Fault::ReadRemoteFile => Wording::QuotedSubject,
            Fault::CloseRemoteFile => Wording::QuotedSubject,
            Fault::CreateRemoteFile => Wording::QuotedSubject,
            Fault::WriteRemoteFile => Wording::QuotedSubject,
            Fault::NoDownloads => Wording::Fixed,
            Fault::CreateLocalFile => Wording::QuotedSubject,
            Fault::WriteLocalFile => Wording::QuotedSubject,
            Fault::FlushLocalFile => Wording::QuotedSubject,
            Fault::OpenLocalFile => Wording::QuotedSubject,
            Fault::LocalMetadata => Wording::QuotedSubject,
            Fault::ReadLocalFile => Wording::QuotedSubject,
            Fault::NoFileName => Wording::SubjectOnly,
            Fault::EntryName => Wording::SubjectOnly,
            Fault::CreateTemp => Wording::Detail,
            Fault::CreateArchive => Wording::Detail,
            Fault::StartEntry => Wording::Detail,
            Fault::WriteArchive => Wording::Detail,
            Fault::FinishArchive => Wording::Detail,
            Fault::NameArchive => Wording::Fixed,
            Fault::MoveArchive => Wording::Detail,
            Fault::DiscardTemp => Wording::Detail,
            Fault::ReadDirectory => Wording::QuotedSubject,
            Fault::CreateFolder => Wording::QuotedSubject,
            Fault::Rename => Wording::QuotedSubject,
            Fault::Stat => Wording::QuotedSubject,
            Fault::DeleteFile => Wording::QuotedSubject,
            Fault::DeleteDirectory => Wording::QuotedSubject,
            Fault::OpenFile => Wording::QuotedSubject,
            Fault::ReadFile => Wording::QuotedSubject,
            Fault::CreateFile => Wording::QuotedSubject,
            Fault::WriteFile => Wording::QuotedSubject,
        }
    }

    /// The opening words of the message of this fault.
    pub open spec fn opening(self) -> Seq<char> {
        match self {
            Fault::Setting => "Failed to load "@,
            Fault::Connect => "Failed to connect to "@,
            Fault::CreateSession => "Failed to create SSH session: "@,
            Fault::Handshake => "SSH handshake failed: "@,
            Fault::Authenticate => "SSH authentication failed: "@,
            Fault::NotAuthenticated => "Authentication failed"@,
            Fault::OpenChannel => "Failed to create channel session: "@,
            Fault::Execute => "Failed to execute command to get home directory: "@,
            Fault::ReadOutput => "Failed to read home directory: "@,
            Fault::CloseChannel => "Failed to close channel: "@,
            Fault::ExitStatus => "Failed to get exit status: "@,
            Fault::CommandFailed => "Command to get home directory failed with exit status: "@,
            Fault::OpenSftp => "Failed to create SFTP session: "@,
            Fault::CreateBase => "Failed to create base directory "@,
            Fault::CreateUser => "Failed to create user directory "@,
            Fault::ListDirectory => "Failed to read directory "@,
            Fault::StatRemoteFile => "Failed to stat remote file '"@,
            Fault::NoFileSize => "Failed to get file size"@,
            Fault::OpenRemoteFile => "Failed to open remote file '"@,
            Fault::ReadRemoteFile => "Failed to read remote file '"@,
            Fault::CloseRemoteFile => "Failed to close remote file '"@,
            Fault::CreateRemoteFile => "Failed to create remote file '"@,
            Fault::WriteRemoteFile => "Failed to write to remote file '"@,
            Fault::NoDownloads => "Failed to find the Downloads directory"@,
            Fault::CreateLocalFile => "Failed to create local file at '"@,
            Fault::WriteLocalFile => "Failed to write to local file at '"@,
            Fault::FlushLocalFile => "Failed to flush local file at '"@,
            Fault::OpenLocalFile => "Failed to open local file '"@,
            Fault::LocalMetadata => "Failed to get file metadata '"@,
            Fault::ReadLocalFile => "Failed to read from local file '"@,
            Fault::NoFileName => "Failed to get file name of '"@,
            Fault::EntryName => "Failed to get file name in directory '"@,
            Fault::CreateTemp => "Failed to create temporary directory: "@,
            Fault::CreateArchive => "Failed to create zip file: "@,
            Fault::StartEntry => "Failed to add file to zip: "@,
            Fault::WriteArchive => "Failed to write to zip: "@,
            Fault::FinishArchive => "Failed to finalize zip file: "@,
            Fault::NameArchive => "Failed to name the zip file"@,
            Fault::MoveArchive => "Failed to move zip file to Downloads: "@,
            Fault::DiscardTemp => "Failed to clean up temporary files: "@,
            Fault::ReadDirectory => "Failed to read directory '"@,
            Fault::CreateFolder => "Failed to create folder '"@,
            Fault::Rename => "Failed to rename '"@,
            Fault::Stat => "Failed to stat '"@,
            Fault::DeleteFile => "Failed to delete file '"@,
            Fault::DeleteDirectory => "Failed to delete directory '"@,
            Fault::OpenFile => "Failed to open file '"@,
            Fault::ReadFile => "Failed to read file '"@,
            Fault::CreateFile => "Failed to create file '"@,
            Fault::WriteFile => "Failed to write to file '"@,
        }
    }

    /// The message of this fault for the given subject and detail.
    pub open spec fn message(self, subject: Seq<char>, detail: Seq<char>) -> Seq<char> {
        match self.wording() {
            Wording::Detail => self.opening() + detail,
            Wording::QuotedSubject => self.opening() + subject + "': "@ + detail,
            Wording::PlainSubject => self.opening() + subject + ": "@ + detail,
            Wording::Fixed => self.opening(),
            Wording::SubjectOnly => self.opening() + subject + "'"@,
        }
    }

    /// The failure that this fault stands for, with the given subject and
    /// detail.
    pub open spec fn failure(self, subject: Seq<char>, detail: Seq<char>) -> FailureModel {
        FailureModel { kind: self.kind(), message: self.message(subject, detail) }
    }

    /// Computes [`Fault::kind`].
    pub fn error_kind(self) -> (r: ErrorKind)
        ensures
            r == self.kind(),
    {
        match self {
            Fault::Setting => ErrorKind::Config,
            Fault::Connect => ErrorKind::Connection,
            Fault::CreateSession => ErrorKind::Connection,
            Fault::Handshake => ErrorKind::Connection,
            Fault::Authenticate => ErrorKind::Connection,
            Fault::NotAuthenticated => ErrorKind::Connection,
            Fault::OpenChannel => ErrorKind::RemoteProtocol,
            Fault::Execute => ErrorKind::RemoteProtocol,
            Fault::ReadOutput => ErrorKind::RemoteProtocol,
            Fault::CloseChannel => ErrorKind::RemoteProtocol,
            Fault::ExitStatus => ErrorKind::RemoteProtocol,
            Fault::CommandFailed => ErrorKind::RemoteProtocol,
            Fault::OpenSftp => ErrorKind::RemoteProtocol,
            Fault::CreateBase => ErrorKind::RemoteProtocol,
            Fault::CreateUser => ErrorKind::RemoteProtocol,
            Fault::ListDirectory => ErrorKind::RemoteProtocol,
            Fault::StatRemoteFile => ErrorKind::RemoteProtocol,
            Fault::NoFileSize => ErrorKind::RemoteProtocol,
            Fault::OpenRemoteFile => ErrorKind::RemoteProtocol,
            Fault::ReadRemoteFile => ErrorKind::RemoteProtocol,
            Fault::CloseRemoteFile => ErrorKind::RemoteProtocol,
            Fault::CreateRemoteFile => ErrorKind::RemoteProtocol,
            Fault::WriteRemoteFile => ErrorKind::RemoteProtocol,
            Fault::NoDownloads => ErrorKind::LocalIo,
            Fault::CreateLocalFile => ErrorKind::LocalIo,
            Fault::WriteLocalFile => ErrorKind::LocalIo,
            Fault::FlushLocalFile => ErrorKind::LocalIo,
            Fault::OpenLocalFile => ErrorKind::LocalIo,
            Fault::LocalMetadata => ErrorKind::LocalIo,
            Fault::ReadLocalFile => ErrorKind::LocalIo,
            Fault::NoFileName => ErrorKind::Path,
            Fault::EntryName => ErrorKind::Path,
            Fault::CreateTemp => ErrorKind::LocalIo,
            Fault::CreateArchive => ErrorKind::LocalIo,
            Fault::StartEntry => ErrorKind::Archive,
            Fault::WriteArchive => ErrorKind::Archive,
            Fault::FinishArchive => ErrorKind::Archive,
            Fault::NameArchive => ErrorKind::Archive,
            Fault::MoveArchive => ErrorKind::LocalIo,
            Fault::DiscardTemp => ErrorKind::LocalIo,
            Fault::ReadDirectory => ErrorKind::RemoteProtocol,
            Fault::CreateFolder => ErrorKind::RemoteProtocol,
            Fault::Rename => ErrorKind::RemoteProtocol,
            Fault::Stat => ErrorKind::RemoteProtocol,
            Fault::DeleteFile => ErrorKind::RemoteProtocol,
            Fault::DeleteDirectory => ErrorKind::RemoteProtocol,
            Fault::OpenFile => ErrorKind::RemoteProtocol,
            Fault::ReadFile => ErrorKind::RemoteProtocol,
            Fault::CreateFile => ErrorKind::RemoteProtocol,
            Fault::WriteFile => ErrorKind::RemoteProtocol,
        }
    }

    /// Computes [`Fault::wording`].
    pub fn message_wording(self) -> (r: Wording)
        ensures
            r == self.wording(),
    {
        match self {
            Fault::Setting => Wording::PlainSubject,
            Fault::Connect => Wording::PlainSubject,
            Fault::CreateSession => Wording::Detail,
            Fault::Handshake => Wording::Detail,
            Fault::Authenticate => Wording::Detail,
            Fault::NotAuthenticated => Wording::Fixed,
            Fault::OpenChannel => Wording::Detail,
            Fault::Execute => Wording::Detail,
            Fault::ReadOutput => Wording::Detail,
            Fault::CloseChannel => Wording::Detail,
            Fault::ExitStatus => Wording::Detail,
            Fault::CommandFailed => Wording::Detail,
            Fault::OpenSftp => Wording::Detail,
            Fault::CreateBase => Wording::PlainSubject,
            Fault::CreateUser => Wording::PlainSubject,
            Fault::ListDirectory => Wording::PlainSubject,
            Fault::StatRemoteFile => Wording::QuotedSubject,
            Fault::NoFileSize => Wording::Fixed,
            Fault::OpenRemoteFile => Wording::QuotedSubject,
            Fault::ReadRemoteFile => Wording::QuotedSubject,
            Fault::CloseRemoteFile => Wording::QuotedSubject,
            Fault::CreateRemoteFile => Wording::QuotedSubject,
            Fault::WriteRemoteFile => Wording::QuotedSubject,
            Fault::NoDownloads => Wording::Fixed,
            Fault::CreateLocalFile => Wording::QuotedSubject,
            Fault::WriteLocalFile => Wording::QuotedSubject,
            Fault::FlushLocalFile => Wording::QuotedSubject,
            Fault::OpenLocalFile => Wording::QuotedSubject,
            Fault::LocalMetadata => Wording::QuotedSubject,
            Fault::ReadLocalFile => Wording::QuotedSubject,
            Fault::NoFileName => Wording::SubjectOnly,
            Fault::EntryName => Wording::SubjectOnly,
            Fault::CreateTemp => Wording::Detail,
            Fault::CreateArchive => Wording::Detail,
            Fault::StartEntry => Wording::Detail,
            Fault::WriteArchive => Wording::Detail,
            Fault::FinishArchive => Wording::Detail,
            Fault::NameArchive => Wording::Fixed,
            Fault::MoveArchive => Wording::Detail,
            Fault::DiscardTemp => Wording::Detail,
            Fault::ReadDirectory => Wording::QuotedSubject,
            Fault::CreateFolder => Wording::QuotedSubject,
            Fault::Rename => Wording::QuotedSubject,
            Fault::Stat => Wording::QuotedSubject,
            Fault::DeleteFile => Wording::QuotedSubject,
            Fault::DeleteDirectory => Wording::QuotedSubject,
            Fault::OpenFile => Wording::QuotedSubject,
            Fault::ReadFile => Wording::QuotedSubject,
            Fault::CreateFile => Wording::QuotedSubject,
            Fault::WriteFile => Wording::QuotedSubject,
        }
    }

    /// Computes [`Fault::opening`].
    pub fn opening_words(self) -> (r: &'static str)
        ensures
            r@ == self.opening(),
    {
        match self {
            Fault::Setting => "Failed to load ",
            Fault::Connect => "Failed to connect to ",
            Fault::CreateSession => "Failed to create SSH session: ",
            Fault::Handshake => "SSH handshake failed: ",
            Fault::Authenticate => "SSH authentication failed: ",
            Fault::NotAuthenticated => "Authentication failed",
            Fault::OpenChannel => "Failed to create channel session: ",
            Fault::Execute => "Failed to execute command to get home directory: ",
            Fault::ReadOutput => "Failed to read home directory: ",
            Fault::CloseChannel => "Failed to close channel: ",
            Fault::ExitStatus => "Failed to get exit status: ",
            Fault::CommandFailed => "Command to get home directory failed with exit status: ",
            Fault::OpenSftp => "Failed to create SFTP session: ",
            Fault::CreateBase => "Failed to create base directory ",
            Fault::CreateUser => "Failed to create user directory ",
            Fault::ListDirectory => "Failed to read directory ",
            Fault::StatRemoteFile => "Failed to stat remote file '",
            Fault::NoFileSize => "Failed to get file size",
            Fault::OpenRemoteFile => "Failed to open remote file '",
            Fault::ReadRemoteFile => "Failed to read remote file '",
            Fault::CloseRemoteFile => "Failed to close remote file '",
            Fault::CreateRemoteFile => "Failed to create remote file '",
            Fault::WriteRemoteFile => "Failed to write to remote file '",
            Fault::NoDownloads => "Failed to find the Downloads directory",
            Fault::CreateLocalFile => "Failed to create local file at '",
            Fault::WriteLocalFile => "Failed to write to local file at '",
            Fault::FlushLocalFile => "Failed to flush local file at '",
            Fault::OpenLocalFile => "Failed to open local file '",
            Fault::LocalMetadata => "Failed to get file metadata '",
            Fault::ReadLocalFile => "Failed to read from local file '",
            Fault::NoFileName => "Failed to get file name of '",
            Fault::EntryName => "Failed to get file name in directory '",
            Fault::CreateTemp => "Failed to create temporary directory: ",
            Fault::CreateArchive => "Failed to create zip file: ",
            Fault::StartEntry => "Failed to add file to zip: ",
            Fault::WriteArchive => "Failed to write to zip: ",
            Fault::FinishArchive => "Failed to finalize zip file: ",
            Fault::NameArchive => "Failed to name the zip file",
            Fault::MoveArchive => "Failed to move zip file to Downloads: ",
            Fault::DiscardTemp => "Failed to clean up temporary files: ",
            Fault::ReadDirectory => "Failed to read directory '",
            Fault::CreateFolder => "Failed to create folder '",
            Fault::Rename => "Failed to rename '",
            Fault::Stat => "Failed to stat '",
            Fault::DeleteFile => "Failed to delete file '",
            Fault::DeleteDirectory => "Failed to delete directory '",
            Fault::OpenFile => "Failed to open file '",
            Fault::ReadFile => "Failed to read file '",
            Fault::CreateFile => "Failed to create file '",
            Fault::WriteFile => "Failed to write to file '",
        }
    }

    /// Builds the failure for this fault.
    pub fn fail(self, subject: &str, detail: &str) -> (r: Failure)
        ensures
            r@ == self.failure(subject@, detail@),
    {
        let mut message = String::from_str(self.opening_words());
        match self.message_wording() {
            Wording::Detail => {
                message.append(detail);
            },
            Wording::QuotedSubject => {
                message.append(subject);
                message.append("': ");
                message.append(detail);
            },
            Wording::PlainSubject => {
                message.append(subject);
                message.append(": ");
                message.append(detail);
            },
            Wording::Fixed => {},
            Wording::SubjectOnly => {
                message.append(subject);
                message.append("'");
            },
        }
        Failure { kind: self.error_kind(), message }
    }
}

} // verus!
