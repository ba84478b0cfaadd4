//! Operations on single entries: a directory is listed, a folder created,
//! an entry renamed, a file read as text, a text saved as a file.

use crate::failure::Fault;
use crate::listing::{list_files_in_directory, listed};
use crate::stat::EntryModel;
use crate::paths::{child, child_path};
use crate::protocol::{
    break_down, breakdown, fits_buffer, lemma_plays_after, plays, Action, ActionModel, Exchange,
    Outcome, OutcomeModel, Reply, ReplyModel, Turn, TurnModel,
};
use crate::workspace::DIRECTORY_MODE;
use crate::CHUNK_SIZE;
use vstd::prelude::*;
use vstd::string::*;

verus! {

/// Where an operation on an entry stands: the action that it waits for.
#[derive(Clone, Copy, Debug, PartialEq, Eq, Structural)]
pub enum FileOpStage {
    /// The directory is being listed.
    Listing,
    /// The folder is being created.
    MakingFolder,
    /// The entry is being renamed.
    Renaming,
    /// The file to read is being opened.
    OpeningText,
    /// The file is being read.
    ReadingText,
    /// The file to save is being created.
    CreatingText,
    /// The content is being written.
    WritingText,
}

/// An operation on one entry.
#[derive(Debug)]
pub struct FileOp {
    stage: FileOpStage,
    /// The remote path of the entry.
    path: String,
    /// The content to save; empty for the other operations.
    content: String,
}

/// A [`FileOp`] as a mathematical value.
pub struct FileOpModel {
    pub stage: FileOpStage,
    pub path: Seq<char>,
    pub content: Seq<char>,
}

impl View for FileOp {
    type V = FileOpModel;

    closed spec fn view(&self) -> FileOpModel {
        FileOpModel { stage: self.stage, path: self.path@, content: self.content@ }
    }
}

impl FileOpModel {
    /// The first turn of the listing of the directory `dir`.
    pub open spec fn list(dir: Seq<char>) -> TurnModel<FileOpModel> {
        TurnModel::Perform(
            FileOpModel { stage: FileOpStage::Listing, path: dir, content: Seq::empty() },
            ActionModel::ReadDir { path: dir },
        )
    }

    /// The first turn of the creation of the folder `name` in `dir`.
    pub open spec fn create_folder(dir: Seq<char>, name: Seq<char>) -> TurnModel<FileOpModel> {
        TurnModel::Perform(
            FileOpModel {
                stage: FileOpStage::MakingFolder,
                path: child(dir, name),
                content: Seq::empty(),
            },
            ActionModel::MakeDir { path: child(dir, name), mode: DIRECTORY_MODE },
        )
    }

    /// The first turn of the renaming of the entry `old` of `dir` to `new`.
    pub open spec fn rename(dir: Seq<char>, old: Seq<char>, new: Seq<char>) -> TurnModel<
        FileOpModel,
    > {
        TurnModel::Perform(
            FileOpModel {
                stage: FileOpStage::Renaming,
                path: child(dir, old),
                content: Seq::empty(),
            },
            ActionModel::Rename { from: child(dir, old), to: child(dir, new) },
        )
    }

    /// The first turn of the reading of the file `name` in `dir`.
    pub open spec fn read(dir: Seq<char>, name: Seq<char>) -> TurnModel<FileOpModel> {
        TurnModel::Perform(
            FileOpModel {
                stage: FileOpStage::OpeningText,
                path: child(dir, name),
                content: Seq::empty(),
            },
            ActionModel::OpenRemote { path: child(dir, name) },
        )
    }

    /// The first turn of the saving of `content` as the file `name` in
    /// `dir`.
    pub open spec fn save(dir: Seq<char>, name: Seq<char>, content: Seq<char>) -> TurnModel<
        FileOpModel,
    > {
        TurnModel::Perform(
            FileOpModel { stage: FileOpStage::CreatingText, path: child(dir, name), content },
            ActionModel::CreateRemote { path: child(dir, name) },
        )
    }

    /// The operation at `stage`, all else unchanged.
    pub open spec fn at(self, stage: FileOpStage) -> FileOpModel {
        FileOpModel { stage, ..self }
    }

    /// The turn that the operation takes on `reply`.
    pub open spec fn next(self, reply: ReplyModel) -> TurnModel<FileOpModel> {
        match self.stage {
            FileOpStage::Listing => match reply {
                ReplyModel::Entries(entries) => TurnModel::Finished(
                    OutcomeModel::Listing(listed(entries)),
                ),
                _ => TurnModel::Failed(breakdown(Fault::ListDirectory, self.path, reply)),
            },
            FileOpStage::MakingFolder => match reply {
                ReplyModel::Done => TurnModel::Finished(OutcomeModel::Done),
                _ => TurnModel::Failed(breakdown(Fault::CreateFolder, self.path, reply)),
            },
            FileOpStage::Renaming => match reply {
                ReplyModel::Done => TurnModel::Finished(OutcomeModel::Done),
                _ => TurnModel::Failed(breakdown(Fault::Rename, self.path, reply)),
            },
            FileOpStage::OpeningText => match reply {
                ReplyModel::Done => TurnModel::Perform(
                    self.at(FileOpStage::ReadingText),
                    ActionModel::ReadRemoteText,
                ),
                _ => TurnModel::Failed(breakdown(Fault::OpenFile, self.path, reply)),
            },
            FileOpStage::ReadingText => match reply {
                ReplyModel::Text(content) => TurnModel::Finished(OutcomeModel::Content(content)),
                _ => TurnModel::Failed(breakdown(Fault::ReadFile, self.path, reply)),
            },
            FileOpStage::CreatingText => match reply {
                ReplyModel::Done => TurnModel::Perform(
                    self.at(FileOpStage::WritingText),
                    ActionModel::WriteRemoteText { content: self.content },
                ),
                _ => TurnModel::Failed(breakdown(Fault::CreateFile, self.path, reply)),
            },
            FileOpStage::WritingText => match reply {
                ReplyModel::Done => TurnModel::Finished(OutcomeModel::Done),
                _ => TurnModel::Failed(breakdown(Fault::WriteFile, self.path, reply)),
            },
        }
    }
}

impl FileOp {
    /// Starts to list the remote directory `dir`.
    pub fn list(dir: String) -> (t: Turn<FileOp>)
        ensures
            t@ == FileOpModel::list(dir@),
    {
        let path = dir.clone();
        Turn::Perform(
            FileOp { stage: FileOpStage::Listing, path: dir, content: String::new() },
            Action::ReadDir { path },
        )
    }

    /// Starts to create the folder `name` in the remote directory `dir`.
    pub fn create_folder(dir: &str, name: &str) -> (t: Turn<FileOp>)
        ensures
            t@ == FileOpModel::create_folder(dir@, name@),
    {
        let path = child_path(dir, name);
        let target = path.clone();
        Turn::Perform(
            FileOp { stage: FileOpStage::MakingFolder, path, content: String::new() },
            Action::MakeDir { path: target, mode: DIRECTORY_MODE },
        )
    }

    /// Starts to rename the entry `old` of the remote directory `dir` to
    /// `new`.
    pub fn rename(dir: &str, old: &str, new: &str) -> (t: Turn<FileOp>)
        ensures
            t@ == FileOpModel::rename(dir@, old@, new@),
    {
        let path = child_path(dir, old);
        let from = path.clone();
        let to = child_path(dir, new);
        Turn::Perform(
            FileOp { stage: FileOpStage::Renaming, path, content: String::new() },
            Action::Rename { from, to },
        )
    }

    /// Starts to read the file `name` in the remote directory `dir` as text.
    pub fn read(dir: &str, name: &str) -> (t: Turn<FileOp>)
        ensures
            t@ == FileOpModel::read(dir@, name@),
    {
        let path = child_path(dir, name);
        let target = path.clone();
        Turn::Perform(
            FileOp { stage: FileOpStage::OpeningText, path, content: String::new() },
            Action::OpenRemote { path: target },
        )
    }

    /// Starts to save `content` as the file `name` in the remote directory
    /// `dir`.
    pub fn save(dir: &str, name: &str, content: String) -> (t: Turn<FileOp>)
        ensures
            t@ == FileOpModel::save(dir@, name@, content@),
    {
        let path = child_path(dir, name);
        let target = path.clone();
        Turn::Perform(
            FileOp { stage: FileOpStage::CreatingText, path, content },
            Action::CreateRemote { path: target },
        )
    }

    /// The turn that waits at `stage` with `action`.
    fn go(self, stage: FileOpStage, action: Action) -> (t: Turn<FileOp>)
        ensures
            t@ == TurnModel::Perform(self@.at(stage), action@),
    {
        let mut m = self;
        m.stage = stage;
        Turn::Perform(m, action)
    }

    /// Takes the reply to the action that the operation waits for, and
    /// gives the turn that follows.
    pub fn step(self, reply: Reply) -> (t: Turn<FileOp>)
        ensures
            t@ == self@.next(reply@),
    {
        match self.stage {
            FileOpStage::Listing => match reply {
                Reply::Entries(entries) => Turn::Finished(
                    Outcome::Listing(list_files_in_directory(&entries)),
                ),
                _ => Turn::Failed(break_down(Fault::ListDirectory, self.path.as_str(), &reply)),
            },
            FileOpStage::MakingFolder => match reply {
                Reply::Done => Turn::Finished(Outcome::Done),
                _ => Turn::Failed(break_down(Fault::CreateFolder, self.path.as_str(), &reply)),
            },
            FileOpStage::Renaming => match reply {
                Reply::Done => Turn::Finished(Outcome::Done),
                _ => Turn::Failed(break_down(Fault::Rename, self.path.as_str(), &reply)),
            },
            FileOpStage::OpeningText => match reply {
                Reply::Done => self.go(FileOpStage::ReadingText, Action::ReadRemoteText),
                _ => Turn::Failed(break_down(Fault::OpenFile, self.path.as_str(), &reply)),
            },
            FileOpStage::ReadingText => match reply {
                Reply::Text(content) => Turn::Finished(Outcome::Content(content)),
                _ => Turn::Failed(break_down(Fault::ReadFile, self.path.as_str(), &reply)),
            },
            FileOpStage::CreatingText => match reply {
                Reply::Done => {
                    let content = self.content.clone();
                    self.go(FileOpStage::WritingText, Action::WriteRemoteText { content })
                },
                _ => Turn::Failed(break_down(Fault::CreateFile, self.path.as_str(), &reply)),
            },
            FileOpStage::WritingText => match reply {
                Reply::Done => Turn::Finished(Outcome::Done),
                _ => Turn::Failed(break_down(Fault::WriteFile, self.path.as_str(), &reply)),
            },
        }
    }
}

/// The exchanges in which the directory at `path` is listed, with a host
/// that holds `entries` there.
pub open spec fn showing(path: Seq<char>, entries: Seq<EntryModel>) -> Seq<Exchange> {
    seq![Exchange { action: ActionModel::ReadDir { path }, reply: ReplyModel::Entries(entries) }]
}

/// The exchanges in which the entry at `path` is made a folder.
pub open spec fn making(path: Seq<char>) -> Seq<Exchange> {
    seq![
        Exchange {
            action: ActionModel::MakeDir { path, mode: DIRECTORY_MODE },
            reply: ReplyModel::Done,
        },
    ]
}

/// The exchanges in which the entry at `from` is renamed to `to`.
pub open spec fn renaming(from: Seq<char>, to: Seq<char>) -> Seq<Exchange> {
    seq![Exchange { action: ActionModel::Rename { from, to }, reply: ReplyModel::Done }]
}

/// The exchanges in which `content` is saved as the file at `path`.
pub open spec fn saving(path: Seq<char>, content: Seq<char>) -> Seq<Exchange> {
    seq![
        Exchange { action: ActionModel::CreateRemote { path }, reply: ReplyModel::Done },
        Exchange { action: ActionModel::WriteRemoteText { content }, reply: ReplyModel::Done },
    ]
}

/// The exchanges in which the file at `path` is read, with a host that
/// holds `content` there.
pub open spec fn reading(path: Seq<char>, content: Seq<char>) -> Seq<Exchange> {
    seq![
        Exchange { action: ActionModel::OpenRemote { path }, reply: ReplyModel::Done },
        Exchange { action: ActionModel::ReadRemoteText, reply: ReplyModel::Text(content) },
    ]
}

impl FileOpModel {
    /// The function by which an operation on an entry steps.
    pub open spec fn stepper() -> spec_fn(FileOpModel, ReplyModel) -> TurnModel<FileOpModel> {
        |m: FileOpModel, reply: ReplyModel| m.next(reply)
    }
}

/// An operation that ends on the reply of one exchange plays that exchange.
proof fn lemma_plays_one(m: FileOpModel, e: Exchange, end: TurnModel<FileOpModel>)
    requires
        m.next(e.reply) == end,
    ensures
        plays(FileOpModel::stepper(), TurnModel::Perform(m, e.action), seq![e], end),
{
    assert(plays(FileOpModel::stepper(), end, Seq::empty(), end));
    lemma_plays_after(FileOpModel::stepper(), m, e.action, e.reply, Seq::empty(), end);
    assert(seq![e] + Seq::<Exchange>::empty() =~= seq![e]);
}

/// An operation that goes through two exchanges plays the two.
proof fn lemma_plays_two(
    m: FileOpModel,
    first: Exchange,
    then: FileOpModel,
    second: Exchange,
    end: TurnModel<FileOpModel>,
)
    requires
        m.next(first.reply) == TurnModel::Perform(then, second.action),
        then.next(second.reply) == end,
    ensures
        plays(
            FileOpModel::stepper(),
            TurnModel::Perform(m, first.action),
            seq![first, second],
            end,
        ),
{
    lemma_plays_one(then, second, end);
    lemma_plays_after(
        FileOpModel::stepper(),
        m,
        first.action,
        first.reply,
        seq![second],
        end,
    );
    assert(seq![first] + seq![second] =~= seq![first, second]);
}

/// A directory is listed by one action, and the listing describes what the
/// host holds there.
pub proof fn lemma_listing_plays(dir: Seq<char>, entries: Seq<EntryModel>)
    ensures
        plays(
            FileOpModel::stepper(),
            FileOpModel::list(dir),
            showing(dir, entries),
            TurnModel::Finished(OutcomeModel::Listing(listed(entries))),
        ),
{
    lemma_plays_one(
        FileOpModel { stage: FileOpStage::Listing, path: dir, content: Seq::empty() },
        showing(dir, entries)[0],
        TurnModel::Finished(OutcomeModel::Listing(listed(entries))),
    );
    assert(showing(dir, entries) =~= seq![showing(dir, entries)[0]]);
}

/// A folder is created, and an entry renamed, by one action on the paths
/// of the entries in their directory.
pub proof fn lemma_folder_and_rename_play(
    dir: Seq<char>,
    name: Seq<char>,
    old: Seq<char>,
    new: Seq<char>,
)
    ensures
        plays(
            FileOpModel::stepper(),
            FileOpModel::create_folder(dir, name),
            making(child(dir, name)),
            TurnModel::Finished(OutcomeModel::Done),
        ),
        plays(
            FileOpModel::stepper(),
            FileOpModel::rename(dir, old, new),
            renaming(child(dir, old), child(dir, new)),
            TurnModel::Finished(OutcomeModel::Done),
        ),
{
    let end = TurnModel::<FileOpModel>::Finished(OutcomeModel::Done);
    lemma_plays_one(
        FileOpModel {
            stage: FileOpStage::MakingFolder,
            path: child(dir, name),
            content: Seq::empty(),
        },
        making(child(dir, name))[0],
        end,
    );
    assert(making(child(dir, name)) =~= seq![making(child(dir, name))[0]]);
    lemma_plays_one(
        FileOpModel { stage: FileOpStage::Renaming, path: child(dir, old), content: Seq::empty() },
        renaming(child(dir, old), child(dir, new))[0],
        end,
    );
    assert(renaming(child(dir, old), child(dir, new)) =~= seq![
        renaming(child(dir, old), child(dir, new))[0],
    ]);
}

/// What is saved is read back. The saving of `content` as the file `name`
/// in `dir` writes `content` to the path of that file and succeeds; and the
/// reading of the file `name` in `dir` reads from the same path and
/// succeeds with exactly what the host holds there.
pub proof fn lemma_saved_text_is_read_back(dir: Seq<char>, name: Seq<char>, content: Seq<char>)
    ensures
        plays(
            FileOpModel::stepper(),
            FileOpModel::save(dir, name, content),
            saving(child(dir, name), content),
            TurnModel::Finished(OutcomeModel::Done),
        ),
        plays(
            FileOpModel::stepper(),
            FileOpModel::read(dir, name),
            reading(child(dir, name), content),
            TurnModel::Finished(OutcomeModel::Content(content)),
        ),
{
    let path = child(dir, name);
    let creating = FileOpModel { stage: FileOpStage::CreatingText, path, content };
    let save = saving(path, content);
    lemma_plays_two(
        creating,
        save[0],
        creating.at(FileOpStage::WritingText),
        save[1],
        TurnModel::Finished(OutcomeModel::Done),
    );
    assert(save =~= seq![save[0], save[1]]);
    let opening = FileOpModel { stage: FileOpStage::OpeningText, path, content: Seq::empty() };
    let read = reading(path, content);
    lemma_plays_two(
        opening,
        read[0],
        opening.at(FileOpStage::ReadingText),
        read[1],
        TurnModel::Finished(OutcomeModel::Content(content)),
    );
    assert(read =~= seq![read[0], read[1]]);
}

/// An operation on an entry moves nothing through the buffer.
pub proof fn lemma_fits_buffer(m: FileOpModel, reply: ReplyModel)
    ensures
        m.next(reply) matches TurnModel::Perform(_, action) ==> fits_buffer(action, CHUNK_SIZE),
{
}

/// An operation on an entry stops at the first failure: answered with a
/// failure, it fails at once.
pub proof fn lemma_failure_ends_operation(m: FileOpModel, why: Seq<char>)
    ensures
        m.next(ReplyModel::Failed(why)) is Failed,
{
}

} // verus!
