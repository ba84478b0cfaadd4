//! The commands: each opens a session of its own, makes sure of the
//! workspace of the user, resolves the directory that it addresses in it,
//! and works there.

use crate::archive::{ZipDownload, ZipModel};
use crate::failure::Fault;
use crate::fileops::{
    lemma_folder_and_rename_play, lemma_listing_plays, lemma_saved_text_is_read_back, making,
    reading, renaming, saving, showing, FileOp, FileOpModel,
};
use crate::host::{
    holds_name, listing, names_of, paths_of, readable, sound_entries, with_folder, with_renamed,
    within_buffer, without, Local, Remote,
};
use crate::listing::{
    lemma_created_folder_is_listed_once, lemma_deleted_entry_is_not_listed,
    lemma_renamed_entry_is_listed_once, listed, shown, FileInfoModel,
};
use crate::packing::{download, ending, lemma_download_plays, packable};
use crate::paths::{
    child, child_path, current_directory, current_directory_path, file_name, proper_name,
    workspace_root_path,
};
use crate::protocol::{
    break_down, breakdown, chained, fits_buffer, lemma_plays_after, lemma_plays_chained,
    lemma_plays_in_a_row, lift, plays, Action, ActionModel, Exchange, Outcome, OutcomeModel, Reply,
    ReplyModel, Turn, TurnModel,
};
use crate::removal::{deletion_of_all, lemma_deletion_is_complete, Removal, RemovalModel};
use crate::session::{lemma_session_plays, logging_in, Session, SessionModel};
use crate::stat::{
    is_directory, is_regular_file, mtime_or_zero, size_or_zero, EntryModel, RemoteStat,
};
use crate::text::{decimal, joined, trimmed};
use crate::transfer::{
    downloading, lemma_upload_plays, uploading, Download, DownloadModel, Upload, UploadModel,
};
use crate::workspace::{
    lemma_provisioning_plays, provisioning, target, Provision, ProvisionModel,
};
use crate::CHUNK_SIZE;
use vstd::prelude::*;
use vstd::string::*;

verus! {

/// What a command is asked to do.
#[derive(Debug)]
pub enum Request {
    /// List the workspace of the user, or a directory below it.
    ConnectToPi { user_name: String, path: Option<String> },
    /// Download entries of a directory: a single file as it is, anything
    /// else as one archive.
    DownloadFiles { user_name: String, current_path: Vec<String>, file_names: Vec<String> },
    /// Upload local files to a directory.
    UploadFiles { user_name: String, current_path: Vec<String>, local_file_paths: Vec<String> },
    /// Create a folder in a directory.
    CreateFolder { user_name: String, current_path: Vec<String>, folder_name: String },
    /// Rename an entry of a directory.
    RenameFile {
        user_name: String,
        current_path: Vec<String>,
        old_name: String,
        new_name: String,
    },
    /// Delete entries of a directory, with all that lies below them.
    DeleteFiles { user_name: String, current_path: Vec<String>, file_names: Vec<String> },
    /// Read a file of a directory as text.
    ReadFile { user_name: String, current_path: Vec<String>, file_name: String },
    /// Save a text as a file of a directory.
    SaveFile {
        user_name: String,
        current_path: Vec<String>,
        file_name: String,
        file_content: String,
    },
}

/// A [`Request`] as a mathematical value.
pub enum RequestModel {
    ConnectToPi { user_name: Seq<char>, path: Option<Seq<char>> },
    DownloadFiles {
        user_name: Seq<char>,
        current_path: Seq<Seq<char>>,
        file_names: Seq<Seq<char>>,
    },
    UploadFiles {
        user_name: Seq<char>,
        current_path: Seq<Seq<char>>,
        local_file_paths: Seq<Seq<char>>,
    },
    CreateFolder { user_name: Seq<char>, current_path: Seq<Seq<char>>, folder_name: Seq<char> },
    RenameFile {
        user_name: Seq<char>,
        current_path: Seq<Seq<char>>,
        old_name: Seq<char>,
        new_name: Seq<char>,
    },
    DeleteFiles {
        user_name: Seq<char>,
        current_path: Seq<Seq<char>>,
        file_names: Seq<Seq<char>>,
    },
    ReadFile { user_name: Seq<char>, current_path: Seq<Seq<char>>, file_name: Seq<char> },
    SaveFile {
        user_name: Seq<char>,
        current_path: Seq<Seq<char>>,
        file_name: Seq<char>,
        file_content: Seq<char>,
    },
}

impl View for Request {
    type V = RequestModel;

    open spec fn view(&self) -> RequestModel {
        match self {
            Request::ConnectToPi { user_name, path } => RequestModel::ConnectToPi {
                user_name: user_name@,
                path: match path {
                    Some(p) => Some(p@),
                    None => None,
                },
            },
            Request::DownloadFiles {
                user_name,
                current_path,
                file_names,
            } => RequestModel::DownloadFiles {
                user_name: user_name@,
                current_path: current_path.deep_view(),
                file_names: file_names.deep_view(),
            },
            Request::UploadFiles {
                user_name,
                current_path,
                local_file_paths,
            } => RequestModel::UploadFiles {
                user_name: user_name@,
                current_path: current_path.deep_view(),
                local_file_paths: local_file_paths.deep_view(),
            },
            Request::CreateFolder {
                user_name,
                current_path,
                folder_name,
            } => RequestModel::CreateFolder {
                user_name: user_name@,
                current_path: current_path.deep_view(),
                folder_name: folder_name@,
            },
            Request::RenameFile {
                user_name,
                current_path,
                old_name,
                new_name,
            } => RequestModel::RenameFile {
                user_name: user_name@,
                current_path: current_path.deep_view(),
                old_name: old_name@,
                new_name: new_name@,
            },
            Request::DeleteFiles {
                user_name,
                current_path,
                file_names,
            } => RequestModel::DeleteFiles {
                user_name: user_name@,
                current_path: current_path.deep_view(),
                file_names: file_names.deep_view(),
            },
            Request::ReadFile { user_name, current_path, file_name } => RequestModel::ReadFile {
                user_name: user_name@,
                current_path: current_path.deep_view(),
                file_name: file_name@,
            },
            Request::SaveFile {
                user_name,
                current_path,
                file_name,
                file_content,
            } => RequestModel::SaveFile {
                user_name: user_name@,
                current_path: current_path.deep_view(),
                file_name: file_name@,
                file_content: file_content@,
            },
        }
    }
}

/// A command in progress.
#[derive(Debug)]
pub enum Operation {
    /// The session is being opened; the request waits.
    Opening(Session, Request),
    /// The workspace of the user is being made sure of; the request waits.
    Provisioning { provision: Provision, request: Request, home: String },
    /// The single entry to download is being examined.
    Inspecting { dir: String, name: String },
    /// A file is being downloaded.
    Downloading(Download),
    /// Entries are being downloaded as an archive.
    Archiving(ZipDownload),
    /// The name of the local file at `index` is being asked for.
    Naming { dir: String, paths: Vec<String>, index: usize },
    /// The local file at `index` is being uploaded.
    Uploading { upload: Upload, dir: String, paths: Vec<String>, index: usize },
    /// A folder is being created, an entry renamed, or a file read or saved.
    Changing(FileOp),
    /// Entries are being deleted.
    Deleting(Removal),
}

/// An [`Operation`] as a mathematical value.
pub enum OperationModel {
    Opening(SessionModel, RequestModel),
    Provisioning { provision: ProvisionModel, request: RequestModel, home: Seq<char> },
    Inspecting { dir: Seq<char>, name: Seq<char> },
    Downloading(DownloadModel),
    Archiving(ZipModel),
    Naming { dir: Seq<char>, paths: Seq<Seq<char>>, index: nat },
    Uploading { upload: UploadModel, dir: Seq<char>, paths: Seq<Seq<char>>, index: nat },
    Changing(FileOpModel),
    Deleting(RemovalModel),
}

impl View for Operation {
    type V = OperationModel;

    open spec fn view(&self) -> OperationModel {
        match self {
            Operation::Opening(s, r) => OperationModel::Opening(s@, r@),
            Operation::Provisioning { provision, request, home } => OperationModel::Provisioning {
                provision: provision@,
                request: request@,
                home: home@,
            },
            Operation::Inspecting { dir, name } => OperationModel::Inspecting {
                dir: dir@,
                name: name@,
            },
            Operation::Downloading(d) => OperationModel::Downloading(d@),
            Operation::Archiving(z) => OperationModel::Archiving(z@),
            Operation::Naming { dir, paths, index } => OperationModel::Naming {
                dir: dir@,
                paths: paths.deep_view(),
                index: *index as nat,
            },
            Operation::Uploading { upload, dir, paths, index } => OperationModel::Uploading {
                upload: upload@,
                dir: dir@,
                paths: paths.deep_view(),
                index: *index as nat,
            },
            Operation::Changing(f) => OperationModel::Changing(f@),
            Operation::Deleting(r) => OperationModel::Deleting(r@),
        }
    }
}

/// The home directory that the opening of a session ended with.
pub open spec fn home_of(outcome: OutcomeModel) -> Seq<char> {
    match outcome {
        OutcomeModel::Content(home) => home,
        _ => Seq::empty(),
    }
}

/// The user in whose workspace `request` works.
pub open spec fn user_of(request: RequestModel) -> Seq<char> {
    match request {
        RequestModel::ConnectToPi { user_name, .. } => user_name,
        RequestModel::DownloadFiles { user_name, .. } => user_name,
        RequestModel::UploadFiles { user_name, .. } => user_name,
        RequestModel::CreateFolder { user_name, .. } => user_name,
        RequestModel::RenameFile { user_name, .. } => user_name,
        RequestModel::DeleteFiles { user_name, .. } => user_name,
        RequestModel::ReadFile { user_name, .. } => user_name,
        RequestModel::SaveFile { user_name, .. } => user_name,
    }
}

/// The turn that follows the opening of the session, with the home
/// directory on the host known to be `home`: the workspace of the user is
/// made sure of, and the work on `request` begins when that has succeeded.
pub open spec fn arrive(request: RequestModel, home: Seq<char>) -> TurnModel<OperationModel> {
    chained(
        ProvisionModel::start(home, user_of(request)),
        |p: ProvisionModel| OperationModel::Provisioning { provision: p, request, home },
        |o: OutcomeModel| begin(request, home),
    )
}

/// The turn that goes on with the uploads: the name of the local file at
/// `index` is asked for, and where no file is left the command has
/// succeeded.
pub open spec fn send_next(dir: Seq<char>, paths: Seq<Seq<char>>, index: nat) -> TurnModel<
    OperationModel,
> {
    if index < paths.len() {
        TurnModel::Perform(
            OperationModel::Naming { dir, paths, index },
            ActionModel::NameLocal { path: paths[index as int] },
        )
    } else {
        TurnModel::Finished(OutcomeModel::Done)
    }
}

/// The first turn of the work on `request`, once the session is open, the
/// home directory on the host is known to be `home`, and the workspace of
/// the user is there.
pub open spec fn begin(request: RequestModel, home: Seq<char>) -> TurnModel<OperationModel> {
    match request {
        RequestModel::ConnectToPi { user_name, path } => lift(
            FileOpModel::list(target(home, user_name, path)),
            |m: FileOpModel| OperationModel::Changing(m),
        ),
        RequestModel::DownloadFiles { user_name, current_path, file_names } => {
            let dir = current_directory(home, user_name, current_path);
            if file_names.len() == 1 {
                TurnModel::Perform(
                    OperationModel::Inspecting { dir, name: file_names[0] },
                    ActionModel::Stat { path: child(dir, file_names[0]) },
                )
            } else {
                lift(ZipModel::start(dir, file_names), |m: ZipModel| OperationModel::Archiving(m))
            }
        },
        RequestModel::UploadFiles { user_name, current_path, local_file_paths } => send_next(
            current_directory(home, user_name, current_path),
            local_file_paths,
            0,
        ),
        RequestModel::CreateFolder { user_name, current_path, folder_name } => lift(
            FileOpModel::create_folder(
                current_directory(home, user_name, current_path),
                folder_name,
            ),
            |m: FileOpModel| OperationModel::Changing(m),
        ),
        RequestModel::RenameFile { user_name, current_path, old_name, new_name } => lift(
            FileOpModel::rename(
                current_directory(home, user_name, current_path),
                old_name,
                new_name,
            ),
            |m: FileOpModel| OperationModel::Changing(m),
        ),
        RequestModel::DeleteFiles { user_name, current_path, file_names } => lift(
            RemovalModel::start(current_directory(home, user_name, current_path), file_names),
            |m: RemovalModel| OperationModel::Deleting(m),
        ),
        RequestModel::ReadFile { user_name, current_path, file_name } => lift(
            FileOpModel::read(current_directory(home, user_name, current_path), file_name),
            |m: FileOpModel| OperationModel::Changing(m),
        ),
        RequestModel::SaveFile { user_name, current_path, file_name, file_content } => lift(
            FileOpModel::save(
                current_directory(home, user_name, current_path),
                file_name,
                file_content,
            ),
            |m: FileOpModel| OperationModel::Changing(m),
        ),
    }
}

impl OperationModel {
    /// The first turn of the command for `request`: a session is opened.
    pub open spec fn start(request: RequestModel) -> TurnModel<OperationModel> {
        lift(SessionModel::start(), |s: SessionModel| OperationModel::Opening(s, request))
    }

    /// The turn that the command takes on `reply`.
    pub open spec fn next(self, reply: ReplyModel) -> TurnModel<OperationModel> {
        match self {
            OperationModel::Opening(session, request) => match session.next(reply) {
                TurnModel::Perform(s, a) => TurnModel::Perform(
                    OperationModel::Opening(s, request),
                    a,
                ),
                TurnModel::Finished(outcome) => arrive(request, home_of(outcome)),
                TurnModel::Failed(f) => TurnModel::Failed(f),
            },
            OperationModel::Provisioning { provision, request, home } => chained(
                provision.next(reply),
                |p: ProvisionModel| OperationModel::Provisioning { provision: p, request, home },
                |o: OutcomeModel| begin(request, home),
            ),
            OperationModel::Inspecting { dir, name } => match reply {
                ReplyModel::Stat(stat) => if is_regular_file(stat) {
                    lift(
                        DownloadModel::start(child(dir, name)),
                        |m: DownloadModel| OperationModel::Downloading(m),
                    )
                } else if is_directory(stat) {
                    lift(
                        ZipModel::start(dir, seq![name]),
                        |m: ZipModel| OperationModel::Archiving(m),
                    )
                } else {
                    TurnModel::Finished(OutcomeModel::Done)
                },
                _ => TurnModel::Failed(breakdown(Fault::StatRemoteFile, child(dir, name), reply)),
            },
            OperationModel::Downloading(download) => lift(
                download.next(reply),
                |m: DownloadModel| OperationModel::Downloading(m),
            ),
            OperationModel::Archiving(zip) => lift(
                zip.next(reply),
                |m: ZipModel| OperationModel::Archiving(m),
            ),
            OperationModel::Naming { dir, paths, index } => match reply {
                ReplyModel::Text(name) => if index < paths.len() {
                    lift(
                        UploadModel::start(child(dir, name), paths[index as int]),
                        |m: UploadModel| OperationModel::Uploading { upload: m, dir, paths, index },
                    )
                } else {
                    TurnModel::Finished(OutcomeModel::Done)
                },
                _ => TurnModel::Failed(
                    Fault::NoFileName.failure(
                        if index < paths.len() {
                            paths[index as int]
                        } else {
                            Seq::empty()
                        },
                        Seq::empty(),
                    ),
                ),
            },
            OperationModel::Uploading { upload, dir, paths, index } => match upload.next(reply) {
                TurnModel::Perform(m, a) => TurnModel::Perform(
                    OperationModel::Uploading { upload: m, dir, paths, index },
                    a,
                ),
                TurnModel::Finished(_) => if index < paths.len() {
                    send_next(dir, paths, index + 1)
                } else {
                    TurnModel::Finished(OutcomeModel::Done)
                },
                TurnModel::Failed(f) => TurnModel::Failed(f),
            },
            OperationModel::Changing(op) => lift(
                op.next(reply),
                |m: FileOpModel| OperationModel::Changing(m),
            ),
            OperationModel::Deleting(removal) => lift(
                removal.next(reply),
                |m: RemovalModel| OperationModel::Deleting(m),
            ),
        }
    }
}

/// The turn of a download as a turn of the command.
fn lift_download(turn: Turn<Download>) -> (t: Turn<Operation>)
    ensures
        t@ == lift(turn@, |m: DownloadModel| OperationModel::Downloading(m)),
{
    match turn {
        Turn::Perform(m, a) => Turn::Perform(Operation::Downloading(m), a),
        Turn::Finished(o) => Turn::Finished(o),
        Turn::Failed(f) => Turn::Failed(f),
    }
}

/// The turn of an archive download as a turn of the command.
fn lift_archive(turn: Turn<ZipDownload>) -> (t: Turn<Operation>)
    ensures
        t@ == lift(turn@, |m: ZipModel| OperationModel::Archiving(m)),
{
    match turn {
        Turn::Perform(m, a) => Turn::Perform(Operation::Archiving(m), a),
        Turn::Finished(o) => Turn::Finished(o),
        Turn::Failed(f) => Turn::Failed(f),
    }
}

/// The turn of an operation on an entry as a turn of the command.
fn lift_change(turn: Turn<FileOp>) -> (t: Turn<Operation>)
    ensures
        t@ == lift(turn@, |m: FileOpModel| OperationModel::Changing(m)),
{
    match turn {
        Turn::Perform(m, a) => Turn::Perform(Operation::Changing(m), a),
        Turn::Finished(o) => Turn::Finished(o),
        Turn::Failed(f) => Turn::Failed(f),
    }
}

/// The turn of a deletion as a turn of the command.
fn lift_removal(turn: Turn<Removal>) -> (t: Turn<Operation>)
    ensures
        t@ == lift(turn@, |m: RemovalModel| OperationModel::Deleting(m)),
{
    match turn {
        Turn::Perform(m, a) => Turn::Perform(Operation::Deleting(m), a),
        Turn::Finished(o) => Turn::Finished(o),
        Turn::Failed(f) => Turn::Failed(f),
    }
}

/// Computes [`send_next`].
fn send(dir: String, paths: Vec<String>, index: usize) -> (t: Turn<Operation>)
    ensures
        t@ == send_next(dir@, paths.deep_view(), index as nat),
{
    if index < paths.len() {
        let path = paths[index].clone();
        Turn::Perform(Operation::Naming { dir, paths, index }, Action::NameLocal { path })
    } else {
        Turn::Finished(Outcome::Done)
    }
}

/// Computes [`OperationModel::start`].
fn start(request: Request) -> (t: Turn<Operation>)
    ensures
        t@ == OperationModel::start(request@),
{
    match Session::start() {
        Turn::Perform(s, a) => Turn::Perform(Operation::Opening(s, request), a),
        Turn::Finished(o) => Turn::Finished(o),
        Turn::Failed(f) => Turn::Failed(f),
    }
}

impl Request {
    /// The user in whose workspace the request works.
    pub fn user_name(&self) -> (r: &String)
        ensures
            r@ == user_of(self@),
    {
        match self {
            Request::ConnectToPi { user_name, .. } => user_name,
            Request::DownloadFiles { user_name, .. } => user_name,
            Request::UploadFiles { user_name, .. } => user_name,
            Request::CreateFolder { user_name, .. } => user_name,
            Request::RenameFile { user_name, .. } => user_name,
            Request::DeleteFiles { user_name, .. } => user_name,
            Request::ReadFile { user_name, .. } => user_name,
            Request::SaveFile { user_name, .. } => user_name,
        }
    }
}

/// The turn of the provisioning as a turn of the command.
fn provisioned(turn: Turn<Provision>, request: Request, home: String) -> (t: Turn<Operation>)
    ensures
        t@ == chained(
            turn@,
            |p: ProvisionModel|
                OperationModel::Provisioning { provision: p, request: request@, home: home@ },
            |o: OutcomeModel| begin(request@, home@),
        ),
{
    match turn {
        Turn::Perform(provision, a) => Turn::Perform(
            Operation::Provisioning { provision, request, home },
            a,
        ),
        Turn::Finished(_) => begin_work(request, home),
        Turn::Failed(f) => Turn::Failed(f),
    }
}

/// Computes [`arrive`].
fn arrive_at(request: Request, home: String) -> (t: Turn<Operation>)
    ensures
        t@ == arrive(request@, home@),
{
    let user = request.user_name().clone();
    provisioned(Provision::start(home.clone(), user), request, home)
}

/// Computes [`begin`].
fn begin_work(request: Request, home: String) -> (t: Turn<Operation>)
    ensures
        t@ == begin(request@, home@),
{
    match request {
        Request::ConnectToPi { user_name, path } => {
            let root = workspace_root_path(home.as_str(), user_name.as_str());
            let dir = match path {
                Some(p) => child_path(root.as_str(), p.as_str()),
                None => root,
            };
            lift_change(FileOp::list(dir))
        },
        Request::DownloadFiles { user_name, current_path, file_names } => {
            let dir = current_directory_path(home.as_str(), user_name.as_str(), &current_path);
            if file_names.len() == 1 {
                let name = file_names[0].clone();
                let path = child_path(dir.as_str(), name.as_str());
                Turn::Perform(Operation::Inspecting { dir, name }, Action::Stat { path })
            } else {
                lift_archive(ZipDownload::start(dir, file_names))
            }
        },
        Request::UploadFiles { user_name, current_path, local_file_paths } => {
            let dir = current_directory_path(home.as_str(), user_name.as_str(), &current_path);
            send(dir, local_file_paths, 0)
        },
        Request::CreateFolder { user_name, current_path, folder_name } => {
            let dir = current_directory_path(home.as_str(), user_name.as_str(), &current_path);
            lift_change(FileOp::create_folder(dir.as_str(), folder_name.as_str()))
        },
        Request::RenameFile { user_name, current_path, old_name, new_name } => {
            let dir = current_directory_path(home.as_str(), user_name.as_str(), &current_path);
            lift_change(FileOp::rename(dir.as_str(), old_name.as_str(), new_name.as_str()))
        },
        Request::DeleteFiles { user_name, current_path, file_names } => {
            let dir = current_directory_path(home.as_str(), user_name.as_str(), &current_path);
            lift_removal(Removal::start(dir, file_names))
        },
        Request::ReadFile { user_name, current_path, file_name } => {
            let dir = current_directory_path(home.as_str(), user_name.as_str(), &current_path);
            lift_change(FileOp::read(dir.as_str(), file_name.as_str()))
        },
        Request::SaveFile { user_name, current_path, file_name, file_content } => {
            let dir = current_directory_path(home.as_str(), user_name.as_str(), &current_path);
            lift_change(FileOp::save(dir.as_str(), file_name.as_str(), file_content))
        },
    }
}

impl Operation {
    /// Takes the reply to the action that the command waits for, and gives
    /// the turn that follows.
    pub fn step(self, reply: Reply) -> (t: Turn<Operation>)
        ensures
            t@ == self@.next(reply@),
    {
        match self {
            Operation::Opening(session, request) => match session.step(reply) {
                Turn::Perform(s, a) => Turn::Perform(Operation::Opening(s, request), a),
                Turn::Finished(outcome) => {
                    let home = match outcome {
                        Outcome::Content(home) => home,
                        _ => String::new(),
                    };
                    arrive_at(request, home)
                },
                Turn::Failed(f) => Turn::Failed(f),
            },
            Operation::Provisioning { provision, request, home } => provisioned(
                provision.step(reply),
                request,
                home,
            ),
            Operation::Inspecting { dir, name } => match reply {
                Reply::Stat(stat) => {
                    if stat.is_file() {
                        lift_download(Download::start(child_path(dir.as_str(), name.as_str())))
                    } else if stat.is_dir() {
                        let mut names: Vec<String> = Vec::new();
                        names.push(name);
                        assert(names.deep_view() =~= seq![name@]);
                        lift_archive(ZipDownload::start(dir, names))
                    } else {
                        Turn::Finished(Outcome::Done)
                    }
                },
                _ => {
                    let path = child_path(dir.as_str(), name.as_str());
                    Turn::Failed(break_down(Fault::StatRemoteFile, path.as_str(), &reply))
                },
            },
            Operation::Downloading(download) => lift_download(download.step(reply)),
            Operation::Archiving(zip) => lift_archive(zip.step(reply)),
            Operation::Naming { dir, paths, index } => match reply {
                Reply::Text(name) => {
                    if index < paths.len() {
                        let remote = child_path(dir.as_str(), name.as_str());
                        let local = paths[index].clone();
                        match Upload::start(remote, local) {
                            Turn::Perform(m, a) => Turn::Perform(
                                Operation::Uploading { upload: m, dir, paths, index },
                                a,
                            ),
                            Turn::Finished(o) => Turn::Finished(o),
                            Turn::Failed(f) => Turn::Failed(f),
                        }
                    } else {
                        Turn::Finished(Outcome::Done)
                    }
                },
                _ => {
                    proof {
                        reveal_strlit("");
                        assert(""@ =~= Seq::<char>::empty());
                    }
                    if index < paths.len() {
                        Turn::Failed(Fault::NoFileName.fail(paths[index].as_str(), ""))
                    } else {
                        Turn::Failed(Fault::NoFileName.fail("", ""))
                    }
                },
            },
            Operation::Uploading { upload, dir, paths, index } => match upload.step(reply) {
                Turn::Perform(m, a) => Turn::Perform(
                    Operation::Uploading { upload: m, dir, paths, index },
                    a,
                ),
                Turn::Finished(_) => {
                    if index < paths.len() {
                        send(dir, paths, index + 1)
                    } else {
                        Turn::Finished(Outcome::Done)
                    }
                },
                Turn::Failed(f) => Turn::Failed(f),
            },
            Operation::Changing(op) => lift_change(op.step(reply)),
            Operation::Deleting(removal) => lift_removal(removal.step(reply)),
        }
    }
}

/// Starts the command that lists the workspace of the user `user_name`, or
/// the directory `path` below it. The workspace is created where it is
/// missing.
pub fn connect_to_pi(user_name: String, path: Option<String>) -> (t: Turn<Operation>)
    ensures
        t@ == OperationModel::start(
            RequestModel::ConnectToPi {
                user_name: user_name@,
                path: match path {
                    Some(p) => Some(p@),
                    None => None,
                },
            },
        ),
{
    start(Request::ConnectToPi { user_name, path })
}

/// Starts the command that downloads the entries `file_names` of the
/// directory `current_path` in the workspace of `user_name`: a single file
/// as it is, anything else as one archive.
pub fn download_files(user_name: String, current_path: Vec<String>, file_names: Vec<String>) -> (t:
    Turn<Operation>)
    ensures
        t@ == OperationModel::start(
            RequestModel::DownloadFiles {
                user_name: user_name@,
                current_path: current_path.deep_view(),
                file_names: file_names.deep_view(),
            },
        ),
{
    start(Request::DownloadFiles { user_name, current_path, file_names })
}

/// Starts the command that uploads the local files `local_file_paths` to
/// the directory `current_path` in the workspace of `user_name`, each under
/// the name that it has locally.
pub fn upload_files(
    user_name: String,
    current_path: Vec<String>,
    local_file_paths: Vec<String>,
) -> (t: Turn<Operation>)
    ensures
        t@ == OperationModel::start(
            RequestModel::UploadFiles {
                user_name: user_name@,
                current_path: current_path.deep_view(),
                local_file_paths: local_file_paths.deep_view(),
            },
        ),
{
    start(Request::UploadFiles { user_name, current_path, local_file_paths })
}

/// Starts the command that creates the folder `folder_name` in the
/// directory `current_path` in the workspace of `user_name`.
pub fn create_folder(user_name: String, current_path: Vec<String>, folder_name: String) -> (t:
    Turn<Operation>)
    ensures
        t@ == OperationModel::start(
            RequestModel::CreateFolder {
                user_name: user_name@,
                current_path: current_path.deep_view(),
                folder_name: folder_name@,
            },
        ),
{
    start(Request::CreateFolder { user_name, current_path, folder_name })
}

/// Starts the command that renames the entry `old_name` of the directory
/// `current_path` in the workspace of `user_name` to `new_name`.
pub fn rename_file(
    user_name: String,
    current_path: Vec<String>,
    old_name: String,
    new_name: String,
) -> (t: Turn<Operation>)
    ensures
        t@ == OperationModel::start(
            RequestModel::RenameFile {
                user_name: user_name@,
                current_path: current_path.deep_view(),
                old_name: old_name@,
                new_name: new_name@,
            },
        ),
{
    start(Request::RenameFile { user_name, current_path, old_name, new_name })
}

/// Starts the command that deletes the entries `file_names` of the
/// directory `current_path` in the workspace of `user_name`, with all that
/// lies below them.
pub fn delete_files(user_name: String, current_path: Vec<String>, file_names: Vec<String>) -> (t:
    Turn<Operation>)
    ensures
        t@ == OperationModel::start(
            RequestModel::DeleteFiles {
                user_name: user_name@,
                current_path: current_path.deep_view(),
                file_names: file_names.deep_view(),
            },
        ),
{
    start(Request::DeleteFiles { user_name, current_path, file_names })
}

/// Starts the command that reads the file `file_name` of the directory
/// `current_path` in the workspace of `user_name` as text.
pub fn read_file(user_name: String, current_path: Vec<String>, file_name: String) -> (t: Turn<
    Operation,
>)
    ensures
        t@ == OperationModel::start(
            RequestModel::ReadFile {
                user_name: user_name@,
                current_path: current_path.deep_view(),
                file_name: file_name@,
            },
        ),
{
    start(Request::ReadFile { user_name, current_path, file_name })
}

/// Starts the command that saves `file_content` as the file `file_name` of
/// the directory `current_path` in the workspace of `user_name`.
pub fn save_file(
    user_name: String,
    current_path: Vec<String>,
    file_name: String,
    file_content: String,
) -> (t: Turn<Operation>)
    ensures
        t@ == OperationModel::start(
            RequestModel::SaveFile {
                user_name: user_name@,
                current_path: current_path.deep_view(),
                file_name: file_name@,
                file_content: file_content@,
            },
        ),
{
    start(Request::SaveFile { user_name, current_path, file_name, file_content })
}

impl OperationModel {
    /// The function by which a command steps.
    pub open spec fn stepper() -> spec_fn(OperationModel, ReplyModel) -> TurnModel<
        OperationModel,
    > {
        |m: OperationModel, reply: ReplyModel| m.next(reply)
    }
}

/// What a command meets before its work: the three settings in the
/// environment, what the host prints for its home directory, and whether
/// the base directory and the directory of the user are there.
pub struct Login {
    pub host: Seq<char>,
    pub username: Seq<char>,
    pub password: Seq<char>,
    pub output: Seq<char>,
    /// Whether the base directory is there.
    pub base_there: bool,
    /// Whether the directory of the user is there.
    pub user_there: bool,
    /// What the host reports of a directory that is there.
    pub stat: RemoteStat,
    /// Why the host cannot examine a directory that is not there.
    pub why: Seq<char>,
}

impl Login {
    /// The exchanges of the opening of a session.
    pub open spec fn script(self) -> Seq<Exchange> {
        logging_in(self.host, self.username, self.password, self.output)
    }

    /// The home directory on the host.
    pub open spec fn home(self) -> Seq<char> {
        trimmed(self.output)
    }

    /// The exchanges in which the workspace of `user` is made sure of: the
    /// base directory is examined, and created where the examination
    /// fails; then the same for the directory of the user.
    pub open spec fn provisioning(self, user: Seq<char>) -> Seq<Exchange> {
        provisioning(self.home(), user, self.base_there, self.user_there, self.stat, self.why)
    }

    /// The exchanges that come before the work of a command in the
    /// workspace of `user`: the opening of a session, and then the
    /// provisioning of the workspace.
    pub open spec fn arrival(self, user: Seq<char>) -> Seq<Exchange> {
        self.script() + self.provisioning(user)
    }
}

/// Every command opens a session first. With the settings at hand and a
/// host that lets the user in, the command performs the exchanges of the
/// opening of a session, and then turns to the workspace of the user below
/// the home directory that the host printed.
pub proof fn lemma_command_logs_in(request: RequestModel, login: Login)
    ensures
        plays(
            OperationModel::stepper(),
            OperationModel::start(request),
            login.script(),
            arrive(request, login.home()),
        ),
{
    let wrap = |s: SessionModel| OperationModel::Opening(s, request);
    let then = |o: OutcomeModel| arrive(request, home_of(o));
    lemma_session_plays(login.host, login.username, login.password, login.output);
    assert forall|m: SessionModel, reply: ReplyModel| #[trigger]
        (OperationModel::stepper())(wrap(m), reply) == chained(
            (SessionModel::stepper())(m, reply),
            wrap,
            then,
        ) by {}
    lemma_plays_chained(
        SessionModel::stepper(),
        OperationModel::stepper(),
        wrap,
        then,
        SessionModel::start(),
        login.script(),
        TurnModel::Finished(OutcomeModel::Content(login.home())),
    );
}

/// Every command makes sure of the workspace before it addresses a path in
/// it. After the opening of the session the command examines the base
/// directory, creates it with the permissions `rwxr-xr-x` where the
/// examination fails, does the same for the directory of the user, and only
/// then begins its work, whatever was there before.
pub proof fn lemma_command_provisions(request: RequestModel, login: Login)
    ensures
        plays(
            OperationModel::stepper(),
            OperationModel::start(request),
            login.arrival(user_of(request)),
            begin(request, login.home()),
        ),
{
    let home = login.home();
    let wrap = |p: ProvisionModel| OperationModel::Provisioning { provision: p, request, home };
    let then = |o: OutcomeModel| begin(request, home);
    lemma_command_logs_in(request, login);
    lemma_provisioning_plays(
        home,
        user_of(request),
        login.base_there,
        login.user_there,
        login.stat,
        login.why,
    );
    assert forall|m: ProvisionModel, reply: ReplyModel| #[trigger]
        (OperationModel::stepper())(wrap(m), reply) == chained(
            (ProvisionModel::stepper())(m, reply),
            wrap,
            then,
        ) by {}
    lemma_plays_chained(
        ProvisionModel::stepper(),
        OperationModel::stepper(),
        wrap,
        then,
        ProvisionModel::start(home, user_of(request)),
        login.provisioning(user_of(request)),
        TurnModel::Finished(
            OutcomeModel::Content(crate::paths::workspace_root(home, user_of(request))),
        ),
    );
    lemma_plays_in_a_row(
        OperationModel::stepper(),
        OperationModel::start(request),
        login.script(),
        arrive(request, home),
        login.provisioning(user_of(request)),
        begin(request, home),
    );
}

/// The command plays `work` behind the opening of a session and the
/// provisioning of the workspace, where its work plays `work` from its
/// beginning.
proof fn lemma_command_plays(
    request: RequestModel,
    login: Login,
    work: Seq<Exchange>,
    end: TurnModel<OperationModel>,
)
    requires
        plays(OperationModel::stepper(), begin(request, login.home()), work, end),
    ensures
        plays(
            OperationModel::stepper(),
            OperationModel::start(request),
            login.arrival(user_of(request)) + work,
            end,
        ),
{
    lemma_command_provisions(request, login);
    lemma_plays_in_a_row(
        OperationModel::stepper(),
        OperationModel::start(request),
        login.arrival(user_of(request)),
        begin(request, login.home()),
        work,
        end,
    );
}

/// Listing provisions, and does not fail over what is there or not. Whether
/// the base directory and the directory of the user are there or not, and
/// so the first time as well as any time after it, the command opens a
/// session, makes sure of the two directories and succeeds with the listing
/// of the same directory: the workspace of the user, or `path` below it.
pub proof fn lemma_connect_to_pi_plays(
    user_name: Seq<char>,
    path: Option<Seq<char>>,
    login: Login,
    entries: Seq<EntryModel>,
)
    ensures
        plays(
            OperationModel::stepper(),
            OperationModel::start(RequestModel::ConnectToPi { user_name, path }),
            login.arrival(user_name) + showing(target(login.home(), user_name, path), entries),
            TurnModel::Finished(OutcomeModel::Listing(listed(entries))),
        ),
{
    let dir = target(login.home(), user_name, path);
    lemma_listing_plays(dir, entries);
    lemma_changing_plays(
        RequestModel::ConnectToPi { user_name, path },
        login,
        FileOpModel::list(dir),
        showing(dir, entries),
        OutcomeModel::Listing(listed(entries)),
    );
}

/// Deleting is complete. Where the host holds `entries` in the directory
/// that the command addresses, the command opens a session, makes sure of
/// the workspace, performs the exchanges of their deletion, which delete
/// every path below and at them (see `lemma_deletion_is_complete`), and
/// succeeds.
pub proof fn lemma_delete_files_plays(
    user_name: Seq<char>,
    current_path: Seq<Seq<char>>,
    login: Login,
    entries: Seq<Remote>,
)
    ensures
        plays(
            OperationModel::stepper(),
            OperationModel::start(
                RequestModel::DeleteFiles {
                    user_name,
                    current_path,
                    file_names: names_of(entries),
                },
            ),
            login.arrival(user_name) + deletion_of_all(
                current_directory(login.home(), user_name, current_path),
                entries,
                0,
            ),
            TurnModel::Finished(OutcomeModel::Done),
        ),
{
    let request = RequestModel::DeleteFiles {
        user_name,
        current_path,
        file_names: names_of(entries),
    };
    let dir = current_directory(login.home(), user_name, current_path);
    let wrap = |m: RemovalModel| OperationModel::Deleting(m);
    let then = |o: OutcomeModel| TurnModel::<OperationModel>::Finished(o);
    lemma_deletion_is_complete(dir, entries);
    assert forall|m: RemovalModel, reply: ReplyModel| #[trigger]
        (OperationModel::stepper())(wrap(m), reply) == chained(
            (RemovalModel::stepper())(m, reply),
            wrap,
            then,
        ) by {}
    lemma_plays_chained(
        RemovalModel::stepper(),
        OperationModel::stepper(),
        wrap,
        then,
        RemovalModel::start(dir, names_of(entries)),
        deletion_of_all(dir, entries, 0),
        TurnModel::Finished(OutcomeModel::Done),
    );
    lemma_command_plays(
        request,
        login,
        deletion_of_all(dir, entries, 0),
        TurnModel::Finished(OutcomeModel::Done),
    );
}

/// An archive download, begun in the directory `dir`, plays as the
/// download of its part does.
proof fn lemma_archiving_plays(
    dir: Seq<char>,
    items: Seq<Remote>,
    secs: i64,
    taken: Seq<Seq<char>>,
    local: Seq<char>,
)
    requires
        forall|i: int| 0 <= i < items.len() ==> packable(#[trigger] items[i]),
        taken.len() <= u64::MAX,
    ensures
        plays(
            OperationModel::stepper(),
            lift(
                ZipModel::start(dir, names_of(items)),
                |m: ZipModel| OperationModel::Archiving(m),
            ),
            download(dir, items, secs, taken, local),
            ending(secs),
        ),
{
    let wrap = |m: ZipModel| OperationModel::Archiving(m);
    let then = |o: OutcomeModel| TurnModel::<OperationModel>::Finished(o);
    lemma_download_plays(dir, items, secs, taken, local);
    assert forall|m: ZipModel, reply: ReplyModel| #[trigger]
        (OperationModel::stepper())(wrap(m), reply) == chained(
            (crate::packing::stepper())(m, reply),
            wrap,
            then,
        ) by {}
    lemma_plays_chained(
        crate::packing::stepper(),
        OperationModel::stepper(),
        wrap,
        then,
        ZipModel::start(dir, names_of(items)),
        download(dir, items, secs, taken, local),
        ending(secs),
    );
}

/// Several entries are downloaded as one archive. Where the host holds
/// `items`, none or more than one, in the directory that the command
/// addresses, and each can be archived, the command opens a session, makes
/// sure of the workspace, performs the exchanges of the archive download,
/// which make the archive that `lemma_download_archives` describes and
/// move it to the first place that is not taken, and succeeds; it fails,
/// the storage released, only where the time cannot be written as a date.
pub proof fn lemma_download_files_archives(
    user_name: Seq<char>,
    current_path: Seq<Seq<char>>,
    login: Login,
    items: Seq<Remote>,
    secs: i64,
    taken: Seq<Seq<char>>,
    local: Seq<char>,
)
    requires
        items.len() != 1,
        forall|i: int| 0 <= i < items.len() ==> packable(#[trigger] items[i]),
        taken.len() <= u64::MAX,
    ensures
        plays(
            OperationModel::stepper(),
            OperationModel::start(
                RequestModel::DownloadFiles {
                    user_name,
                    current_path,
                    file_names: names_of(items),
                },
            ),
            login.arrival(user_name) + download(
                current_directory(login.home(), user_name, current_path),
                items,
                secs,
                taken,
                local,
            ),
            ending(secs),
        ),
{
    let request = RequestModel::DownloadFiles {
        user_name,
        current_path,
        file_names: names_of(items),
    };
    let dir = current_directory(login.home(), user_name, current_path);
    lemma_archiving_plays(dir, items, secs, taken, local);
    lemma_command_plays(
        request,
        login,
        download(dir, items, secs, taken, local),
        ending(secs),
    );
}

/// A single directory is downloaded as an archive. Where the host holds
/// the directory `item`, which can be archived, in the directory that the
/// command addresses, the command opens a session, makes sure of the
/// workspace, examines the entry, performs the exchanges of the archive
/// download and succeeds; it fails, the storage released, only where the
/// time cannot be written as a date.
pub proof fn lemma_download_files_archives_a_directory(
    user_name: Seq<char>,
    current_path: Seq<Seq<char>>,
    login: Login,
    item: Remote,
    secs: i64,
    taken: Seq<Seq<char>>,
    local: Seq<char>,
)
    requires
        is_directory(item.stat),
        packable(item),
        taken.len() <= u64::MAX,
    ensures
        plays(
            OperationModel::stepper(),
            OperationModel::start(
                RequestModel::DownloadFiles {
                    user_name,
                    current_path,
                    file_names: seq![item.name],
                },
            ),
            login.arrival(user_name) + (seq![
                Exchange {
                    action: ActionModel::Stat {
                        path: child(
                            current_directory(login.home(), user_name, current_path),
                            item.name,
                        ),
                    },
                    reply: ReplyModel::Stat(item.stat),
                },
            ] + download(
                current_directory(login.home(), user_name, current_path),
                seq![item],
                secs,
                taken,
                local,
            )),
            ending(secs),
        ),
{
    let request = RequestModel::DownloadFiles {
        user_name,
        current_path,
        file_names: seq![item.name],
    };
    let dir = current_directory(login.home(), user_name, current_path);
    let end = ending::<OperationModel>(secs);
    let inspecting = OperationModel::Inspecting { dir, name: item.name };
    let probe = ActionModel::Stat { path: child(dir, item.name) };
    assert(names_of(seq![item]) =~= seq![item.name]);
    lemma_archiving_plays(dir, seq![item], secs, taken, local);
    assert((OperationModel::stepper())(inspecting, ReplyModel::Stat(item.stat)) == lift(
        ZipModel::start(dir, seq![item.name]),
        |m: ZipModel| OperationModel::Archiving(m),
    ));
    lemma_plays_after(
        OperationModel::stepper(),
        inspecting,
        probe,
        ReplyModel::Stat(item.stat),
        download(dir, seq![item], secs, taken, local),
        end,
    );
    assert(begin(request, login.home()) == TurnModel::Perform(inspecting, probe));
    lemma_command_plays(
        request,
        login,
        seq![Exchange { action: probe, reply: ReplyModel::Stat(item.stat) }] + download(
            dir,
            seq![item],
            secs,
            taken,
            local,
        ),
        end,
    );
}

/// A single file is downloaded as it is. Where the host holds the readable
/// file `item` in the directory that the command addresses, under a name
/// that is the final component of its path, the command opens a session,
/// makes sure of the workspace, examines the entry, performs the exchanges
/// of the download, which move the file as `lemma_download_moves_the_file`
/// says, and succeeds with the local path.
pub proof fn lemma_download_files_fetches_a_file(
    user_name: Seq<char>,
    current_path: Seq<Seq<char>>,
    login: Login,
    item: Remote,
    local: Seq<char>,
)
    requires
        is_regular_file(item.stat),
        readable(item),
        file_name(
            child(current_directory(login.home(), user_name, current_path), item.name),
        ) is Some,
    ensures
        plays(
            OperationModel::stepper(),
            OperationModel::start(
                RequestModel::DownloadFiles {
                    user_name,
                    current_path,
                    file_names: seq![item.name],
                },
            ),
            login.arrival(user_name) + (seq![
                Exchange {
                    action: ActionModel::Stat {
                        path: child(
                            current_directory(login.home(), user_name, current_path),
                            item.name,
                        ),
                    },
                    reply: ReplyModel::Stat(item.stat),
                },
            ] + downloading(
                child(current_directory(login.home(), user_name, current_path), item.name),
                item,
                local,
            )),
            TurnModel::Finished(OutcomeModel::Saved(local)),
        ),
{
    let request = RequestModel::DownloadFiles {
        user_name,
        current_path,
        file_names: seq![item.name],
    };
    let dir = current_directory(login.home(), user_name, current_path);
    let remote = child(dir, item.name);
    let end = TurnModel::<OperationModel>::Finished(OutcomeModel::Saved(local));
    let inspecting = OperationModel::Inspecting { dir, name: item.name };
    let probe = ActionModel::Stat { path: remote };
    let wrap = |m: DownloadModel| OperationModel::Downloading(m);
    let then = |o: OutcomeModel| TurnModel::<OperationModel>::Finished(o);
    crate::transfer::lemma_download_plays(remote, item, local);
    assert forall|m: DownloadModel, reply: ReplyModel| #[trigger]
        (OperationModel::stepper())(wrap(m), reply) == chained(
            (DownloadModel::stepper())(m, reply),
            wrap,
            then,
        ) by {}
    lemma_plays_chained(
        DownloadModel::stepper(),
        OperationModel::stepper(),
        wrap,
        then,
        DownloadModel::start(remote),
        downloading(remote, item, local),
        TurnModel::Finished(OutcomeModel::Saved(local)),
    );
    assert((OperationModel::stepper())(inspecting, ReplyModel::Stat(item.stat)) == lift(
        DownloadModel::start(remote),
        |m: DownloadModel| OperationModel::Downloading(m),
    ));
    lemma_plays_after(
        OperationModel::stepper(),
        inspecting,
        probe,
        ReplyModel::Stat(item.stat),
        downloading(remote, item, local),
        end,
    );
    assert(begin(request, login.home()) == TurnModel::Perform(inspecting, probe));
    lemma_command_plays(
        request,
        login,
        seq![Exchange { action: probe, reply: ReplyModel::Stat(item.stat) }] + downloading(
            remote,
            item,
            local,
        ),
        end,
    );
}

/// A command on a single entry plays what its work plays.
proof fn lemma_changing_plays(
    request: RequestModel,
    login: Login,
    turn: TurnModel<FileOpModel>,
    work: Seq<Exchange>,
    outcome: OutcomeModel,
)
    requires
        begin(request, login.home()) == lift(turn, |m: FileOpModel| OperationModel::Changing(m)),
        plays(FileOpModel::stepper(), turn, work, TurnModel::Finished(outcome)),
    ensures
        plays(
            OperationModel::stepper(),
            OperationModel::start(request),
            login.arrival(user_of(request)) + work,
            TurnModel::Finished(outcome),
        ),
{
    let wrap = |m: FileOpModel| OperationModel::Changing(m);
    let then = |o: OutcomeModel| TurnModel::<OperationModel>::Finished(o);
    assert forall|m: FileOpModel, reply: ReplyModel| #[trigger]
        (OperationModel::stepper())(wrap(m), reply) == chained(
            (FileOpModel::stepper())(m, reply),
            wrap,
            then,
        ) by {}
    lemma_plays_chained(
        FileOpModel::stepper(),
        OperationModel::stepper(),
        wrap,
        then,
        turn,
        work,
        TurnModel::Finished(outcome),
    );
    lemma_command_plays(request, login, work, TurnModel::Finished(outcome));
}

/// What is saved is read back. The command that saves `file_content` as a
/// file writes it to the path of the file in the directory that the
/// command addresses; and the command that reads the file of that name in
/// that directory reads from the same path, and succeeds with exactly what
/// the host holds there.
pub proof fn lemma_save_file_then_read_file(
    user_name: Seq<char>,
    current_path: Seq<Seq<char>>,
    file_name: Seq<char>,
    file_content: Seq<char>,
    login: Login,
)
    ensures
        plays(
            OperationModel::stepper(),
            OperationModel::start(
                RequestModel::SaveFile { user_name, current_path, file_name, file_content },
            ),
            login.arrival(user_name) + saving(
                child(current_directory(login.home(), user_name, current_path), file_name),
                file_content,
            ),
            TurnModel::Finished(OutcomeModel::Done),
        ),
        plays(
            OperationModel::stepper(),
            OperationModel::start(RequestModel::ReadFile { user_name, current_path, file_name }),
            login.arrival(user_name) + reading(
                child(current_directory(login.home(), user_name, current_path), file_name),
                file_content,
            ),
            TurnModel::Finished(OutcomeModel::Content(file_content)),
        ),
{
    let dir = current_directory(login.home(), user_name, current_path);
    lemma_saved_text_is_read_back(dir, file_name, file_content);
    lemma_changing_plays(
        RequestModel::SaveFile { user_name, current_path, file_name, file_content },
        login,
        FileOpModel::save(dir, file_name, file_content),
        saving(child(dir, file_name), file_content),
        OutcomeModel::Done,
    );
    lemma_changing_plays(
        RequestModel::ReadFile { user_name, current_path, file_name },
        login,
        FileOpModel::read(dir, file_name),
        reading(child(dir, file_name), file_content),
        OutcomeModel::Content(file_content),
    );
}

/// A folder is created, and an entry renamed, where the command says. The
/// command that creates a folder asks for the directory at the path of the
/// folder in the directory that the command addresses, with the
/// permissions `rwxr-xr-x`; the command that renames an entry asks for the
/// renaming of the path of the old name in that directory to the path of
/// the new name in it.
pub proof fn lemma_create_folder_and_rename_file(
    user_name: Seq<char>,
    current_path: Seq<Seq<char>>,
    folder_name: Seq<char>,
    old_name: Seq<char>,
    new_name: Seq<char>,
    login: Login,
)
    ensures
        plays(
            OperationModel::stepper(),
            OperationModel::start(
                RequestModel::CreateFolder { user_name, current_path, folder_name },
            ),
            login.arrival(user_name) + making(
                child(current_directory(login.home(), user_name, current_path), folder_name),
            ),
            TurnModel::Finished(OutcomeModel::Done),
        ),
        plays(
            OperationModel::stepper(),
            OperationModel::start(
                RequestModel::RenameFile { user_name, current_path, old_name, new_name },
            ),
            login.arrival(user_name) + renaming(
                child(current_directory(login.home(), user_name, current_path), old_name),
                child(current_directory(login.home(), user_name, current_path), new_name),
            ),
            TurnModel::Finished(OutcomeModel::Done),
        ),
{
    let dir = current_directory(login.home(), user_name, current_path);
    lemma_folder_and_rename_play(dir, folder_name, old_name, new_name);
    lemma_changing_plays(
        RequestModel::CreateFolder { user_name, current_path, folder_name },
        login,
        FileOpModel::create_folder(dir, folder_name),
        making(child(dir, folder_name)),
        OutcomeModel::Done,
    );
    lemma_changing_plays(
        RequestModel::RenameFile { user_name, current_path, old_name, new_name },
        login,
        FileOpModel::rename(dir, old_name, new_name),
        renaming(child(dir, old_name), child(dir, new_name)),
        OutcomeModel::Done,
    );
}

/// The exchanges in which the local files `files` are uploaded to `dir`,
/// from the index `from` on: the name of each is asked for, and the file
/// uploaded under that name.
pub open spec fn sending(dir: Seq<char>, files: Seq<Local>, from: nat) -> Seq<Exchange>
    decreases files.len() - from,
{
    if from >= files.len() {
        Seq::empty()
    } else {
        let file = files[from as int];
        seq![
            Exchange {
                action: ActionModel::NameLocal { path: file.path },
                reply: ReplyModel::Text(file.name),
            },
        ] + uploading(child(dir, file.name), file) + sending(dir, files, from + 1)
    }
}

/// The uploads of the local files from the index `from` on play
/// [`sending`] and succeed.
proof fn lemma_plays_sending(dir: Seq<char>, files: Seq<Local>, from: nat)
    requires
        from <= files.len(),
        forall|i: int| 0 <= i < files.len() ==> within_buffer(#[trigger] files[i].chunks),
    ensures
        plays(
            OperationModel::stepper(),
            send_next(dir, paths_of(files), from),
            sending(dir, files, from),
            TurnModel::Finished(OutcomeModel::Done),
        ),
    decreases files.len() - from,
{
    let step = OperationModel::stepper();
    let end = TurnModel::<OperationModel>::Finished(OutcomeModel::Done);
    if from < files.len() {
        let file = files[from as int];
        let paths = paths_of(files);
        let remote = child(dir, file.name);
        let naming = OperationModel::Naming { dir, paths, index: from };
        let wrap = |m: UploadModel| OperationModel::Uploading { upload: m, dir, paths, index: from };
        let then = |o: OutcomeModel| send_next(dir, paths, from + 1);
        lemma_upload_plays(remote, file);
        assert forall|m: UploadModel, reply: ReplyModel| #[trigger]
            (OperationModel::stepper())(wrap(m), reply) == chained(
                (UploadModel::stepper())(m, reply),
                wrap,
                then,
            ) by {}
        lemma_plays_chained(
            UploadModel::stepper(),
            step,
            wrap,
            then,
            UploadModel::start(remote, file.path),
            uploading(remote, file),
            TurnModel::Finished(OutcomeModel::Done),
        );
        lemma_plays_sending(dir, files, from + 1);
        lemma_plays_in_a_row(
            step,
            chained(UploadModel::start(remote, file.path), wrap, then),
            uploading(remote, file),
            send_next(dir, paths, from + 1),
            sending(dir, files, from + 1),
            end,
        );
        assert(step(naming, ReplyModel::Text(file.name)) == chained(
            UploadModel::start(remote, file.path),
            wrap,
            then,
        ));
        lemma_plays_after(
            step,
            naming,
            ActionModel::NameLocal { path: file.path },
            ReplyModel::Text(file.name),
            uploading(remote, file) + sending(dir, files, from + 1),
            end,
        );
        assert(sending(dir, files, from) =~= seq![
            Exchange {
                action: ActionModel::NameLocal { path: file.path },
                reply: ReplyModel::Text(file.name),
            },
        ] + (uploading(remote, file) + sending(dir, files, from + 1)));
    }
}

/// Local files are uploaded one after the other, each under its own name.
/// Where every read of the local files gives at least one byte and at most
/// a buffer full, and every action succeeds, the command opens a session,
/// makes sure of the workspace, performs for each file in turn the exchanges
/// of its upload to the path of its name in the directory that the command
/// addresses, and succeeds.
pub proof fn lemma_upload_files_plays(
    user_name: Seq<char>,
    current_path: Seq<Seq<char>>,
    login: Login,
    files: Seq<Local>,
)
    requires
        forall|i: int| 0 <= i < files.len() ==> within_buffer(#[trigger] files[i].chunks),
    ensures
        plays(
            OperationModel::stepper(),
            OperationModel::start(
                RequestModel::UploadFiles {
                    user_name,
                    current_path,
                    local_file_paths: paths_of(files),
                },
            ),
            login.arrival(user_name) + sending(
                current_directory(login.home(), user_name, current_path),
                files,
                0,
            ),
            TurnModel::Finished(OutcomeModel::Done),
        ),
{
    let dir = current_directory(login.home(), user_name, current_path);
    lemma_plays_sending(dir, files, 0);
    lemma_command_plays(
        RequestModel::UploadFiles { user_name, current_path, local_file_paths: paths_of(files) },
        login,
        sending(dir, files, 0),
        TurnModel::Finished(OutcomeModel::Done),
    );
}

/// The work of a command begins with an action that moves nothing through
/// the buffer.
proof fn lemma_beginning_fits_buffer(request: RequestModel, home: Seq<char>)
    ensures
        begin(request, home) matches TurnModel::Perform(_, action) ==> fits_buffer(
            action,
            CHUNK_SIZE,
        ),
{
}

/// Memory is bounded by one buffer. Whatever a command is asked and however
/// it is answered, no action that it asks for reads into the buffer, or
/// writes from it, more bytes than the buffer holds.
pub proof fn lemma_actions_fit_the_buffer(
    request: RequestModel,
    m: OperationModel,
    reply: ReplyModel,
)
    ensures
        OperationModel::start(request) matches TurnModel::Perform(_, action) ==> fits_buffer(
            action,
            CHUNK_SIZE,
        ),
        m.next(reply) matches TurnModel::Perform(_, action) ==> fits_buffer(action, CHUNK_SIZE),
{
    match m {
        OperationModel::Opening(session, waiting) => {
            crate::session::lemma_fits_buffer(session, reply);

        },
        OperationModel::Provisioning { provision, request: waiting, home } => {
            crate::workspace::lemma_fits_buffer(provision, reply);
            lemma_beginning_fits_buffer(waiting, home);
        },
        OperationModel::Inspecting { dir, name } => {},
        OperationModel::Downloading(download) => {
            crate::transfer::lemma_download_fits_buffer(download, reply);
        },
        OperationModel::Archiving(zip) => {
            crate::packing::lemma_fits_buffer(zip, reply);
        },
        OperationModel::Naming { dir, paths, index } => {},
        OperationModel::Uploading { upload, dir, paths, index } => {
            crate::transfer::lemma_upload_fits_buffer(upload, reply);
        },
        OperationModel::Changing(op) => {
            crate::fileops::lemma_fits_buffer(op, reply);
        },
        OperationModel::Deleting(removal) => {
            crate::removal::lemma_fits_buffer(removal, reply);
        },
    }
}

/// The directory of the workspace that the listing command is asked for
/// when it is to show the directory that the other commands address by
/// `current_path`: none for the workspace itself, else the segments joined
/// by `/`.
pub open spec fn shown_path(current_path: Seq<Seq<char>>) -> Option<Seq<char>> {
    if current_path.len() == 0 {
        None
    } else {
        Some(joined(current_path))
    }
}

/// The listing command, asked for `shown_path(current_path)`, with a host
/// that holds `children` in the directory that the other commands address
/// by `current_path`, succeeds with the listing of these.
proof fn lemma_connect_to_pi_shows(
    user_name: Seq<char>,
    current_path: Seq<Seq<char>>,
    login: Login,
    children: Seq<Remote>,
)
    ensures
        plays(
            OperationModel::stepper(),
            OperationModel::start(
                RequestModel::ConnectToPi { user_name, path: shown_path(current_path) },
            ),
            login.arrival(user_name) + showing(
                current_directory(login.home(), user_name, current_path),
                listing(current_directory(login.home(), user_name, current_path), children),
            ),
            TurnModel::Finished(
                OutcomeModel::Listing(
                    listed(
                        listing(
                            current_directory(login.home(), user_name, current_path),
                            children,
                        ),
                    ),
                ),
            ),
        ),
{
    let dir = current_directory(login.home(), user_name, current_path);
    assert(target(login.home(), user_name, shown_path(current_path)) == dir);
    lemma_connect_to_pi_plays(user_name, shown_path(current_path), login, listing(dir, children));
}

/// A listing reflects a created folder. Where the host held `children` in
/// the directory that the command addressed, none of them called
/// `folder_name`, and the creation of the folder has succeeded, so that the
/// host holds the folder too, the listing of that directory succeeds with
/// what it showed before and, behind that, exactly one entry called
/// `folder_name`, shown as a folder.
pub proof fn lemma_connect_to_pi_after_create_folder(
    user_name: Seq<char>,
    current_path: Seq<Seq<char>>,
    folder_name: Seq<char>,
    login: Login,
    children: Seq<Remote>,
    stat: RemoteStat,
)
    requires
        sound_entries(children),
        proper_name(folder_name),
        !holds_name(children, folder_name),
        is_directory(stat),
    ensures
        plays(
            OperationModel::stepper(),
            OperationModel::start(
                RequestModel::ConnectToPi { user_name, path: shown_path(current_path) },
            ),
            login.arrival(user_name) + showing(
                current_directory(login.home(), user_name, current_path),
                listing(
                    current_directory(login.home(), user_name, current_path),
                    with_folder(children, folder_name, stat),
                ),
            ),
            TurnModel::Finished(
                OutcomeModel::Listing(
                    listed(
                        listing(
                            current_directory(login.home(), user_name, current_path),
                            children,
                        ),
                    ).push(
                        FileInfoModel {
                            name: folder_name,
                            file_type: "Folder"@,
                            size: size_or_zero(stat),
                            last_modified: decimal(mtime_or_zero(stat) as nat),
                        },
                    ),
                ),
            ),
        ),
        forall|i: int|
            0 <= i < children.len() ==> (#[trigger] listed(
                listing(current_directory(login.home(), user_name, current_path), children),
            )[i]).name != folder_name,
{
    let dir = current_directory(login.home(), user_name, current_path);
    lemma_created_folder_is_listed_once(dir, children, folder_name, stat);
    lemma_connect_to_pi_shows(
        user_name,
        current_path,
        login,
        with_folder(children, folder_name, stat),
    );
}

/// A listing reflects a renaming. Where the host held `children` in the
/// directory that the command addressed, none of them called `new_name`,
/// and the renaming of the entry at `index` to `new_name` has succeeded,
/// the listing of that directory succeeds with as many entries as before:
/// none under the old name, one called `new_name` in the place of the old
/// one, and every other entry as before.
pub proof fn lemma_connect_to_pi_after_rename_file(
    user_name: Seq<char>,
    current_path: Seq<Seq<char>>,
    new_name: Seq<char>,
    login: Login,
    children: Seq<Remote>,
    index: int,
)
    requires
        sound_entries(children),
        0 <= index < children.len(),
        proper_name(new_name),
        !holds_name(children, new_name),
    ensures
        plays(
            OperationModel::stepper(),
            OperationModel::start(
                RequestModel::ConnectToPi { user_name, path: shown_path(current_path) },
            ),
            login.arrival(user_name) + showing(
                current_directory(login.home(), user_name, current_path),
                listing(
                    current_directory(login.home(), user_name, current_path),
                    with_renamed(children, index, new_name),
                ),
            ),
            TurnModel::Finished(
                OutcomeModel::Listing(
                    listed(
                        listing(
                            current_directory(login.home(), user_name, current_path),
                            children,
                        ),
                    ).update(index, shown(Remote { name: new_name, ..children[index] })),
                ),
            ),
        ),
        forall|i: int|
            0 <= i < children.len() ==> (#[trigger] listed(
                listing(
                    current_directory(login.home(), user_name, current_path),
                    with_renamed(children, index, new_name),
                ),
            )[i]).name != children[index].name,
{
    let dir = current_directory(login.home(), user_name, current_path);
    lemma_renamed_entry_is_listed_once(dir, children, index, new_name);
    lemma_connect_to_pi_shows(
        user_name,
        current_path,
        login,
        with_renamed(children, index, new_name),
    );
}

/// A listing reflects a deletion. Where the host held `children` in the
/// directory that the command addressed, and the deletion of the entry at
/// `index` has succeeded, the listing of that directory succeeds with every
/// other entry as before, in the same order, and with none under the name
/// of the deleted one.
pub proof fn lemma_connect_to_pi_after_delete_files(
    user_name: Seq<char>,
    current_path: Seq<Seq<char>>,
    login: Login,
    children: Seq<Remote>,
    index: int,
)
    requires
        sound_entries(children),
        0 <= index < children.len(),
    ensures
        plays(
            OperationModel::stepper(),
            OperationModel::start(
                RequestModel::ConnectToPi { user_name, path: shown_path(current_path) },
            ),
            login.arrival(user_name) + showing(
                current_directory(login.home(), user_name, current_path),
                listing(
                    current_directory(login.home(), user_name, current_path),
                    without(children, index),
                ),
            ),
            TurnModel::Finished(
                OutcomeModel::Listing(
                    listed(
                        listing(
                            current_directory(login.home(), user_name, current_path),
                            children,
                        ),
                    ).remove(index),
                ),
            ),
        ),
        forall|i: int|
            0 <= i < children.len() - 1 ==> (#[trigger] listed(
                listing(
                    current_directory(login.home(), user_name, current_path),
                    without(children, index),
                ),
            )[i]).name != children[index].name,
{
    let dir = current_directory(login.home(), user_name, current_path);
    lemma_deleted_entry_is_not_listed(dir, children, index);
    lemma_connect_to_pi_shows(user_name, current_path, login, without(children, index));
}

/// A directory that is not there cannot be listed. Where the host cannot
/// read the directory that the listing command is asked for, as it cannot
/// once the directory has been deleted, the command fails with a message
/// that names the directory.
pub proof fn lemma_connect_to_pi_fails_where_nothing_is(
    user_name: Seq<char>,
    path: Option<Seq<char>>,
    login: Login,
    why: Seq<char>,
)
    ensures
        plays(
            OperationModel::stepper(),
            OperationModel::start(RequestModel::ConnectToPi { user_name, path }),
            login.arrival(user_name) + seq![
                Exchange {
                    action: ActionModel::ReadDir { path: target(login.home(), user_name, path) },
                    reply: ReplyModel::Failed(why),
                },
            ],
            TurnModel::Failed(
                Fault::ListDirectory.failure(target(login.home(), user_name, path), why),
            ),
        ),
{
    let request = RequestModel::ConnectToPi { user_name, path };
    let dir = target(login.home(), user_name, path);
    let step = OperationModel::stepper();
    let end = TurnModel::<OperationModel>::Failed(Fault::ListDirectory.failure(dir, why));
    let listing_stage = OperationModel::Changing(
        FileOpModel { stage: crate::fileops::FileOpStage::Listing, path: dir, content: Seq::empty() },
    );
    assert(begin(request, login.home()) == TurnModel::Perform(
        listing_stage,
        ActionModel::ReadDir { path: dir },
    ));
    assert(step(listing_stage, ReplyModel::Failed(why)) == end);
    assert(plays(step, end, Seq::empty(), end));
    lemma_plays_after(
        step,
        listing_stage,
        ActionModel::ReadDir { path: dir },
        ReplyModel::Failed(why),
        Seq::empty(),
        end,
    );
    let work = seq![
        Exchange { action: ActionModel::ReadDir { path: dir }, reply: ReplyModel::Failed(why) },
    ];
    assert(work + Seq::<Exchange>::empty() =~= work);
    lemma_command_plays(request, login, work, end);
}

} // verus!
