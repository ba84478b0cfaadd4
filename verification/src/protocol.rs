//! The exchange between an operation and whoever carries it out: the actions
//! that an operation asks for, the replies that it takes, and the turns in
//! which it does so.

use crate::failure::{Failure, FailureModel, Fault};
use crate::listing::{info_models, FileInfo, FileInfoModel};
use crate::stat::{entry_models, EntryModel, RemoteEntry, RemoteStat};
use vstd::prelude::*;
use vstd::string::*;

verus! {

/// The topics under which progress is reported.
#[derive(Clone, Copy, Debug, PartialEq, Eq, Structural)]
pub enum Topic {
    /// The number of bytes that an operation is about to move.
    TotalSize,
    /// The number of bytes downloaded so far.
    DownloadProgress,
    /// The number of bytes uploaded so far.
    UploadProgress,
    /// The number of bytes of the current file archived so far.
    ZipProgress,
}

impl Topic {
    /// The name under which subscribers know the topic.
    pub open spec fn label(self) -> Seq<char> {
        match self {
            Topic::TotalSize => "total-size"@,
            Topic::DownloadProgress => "download-progress"@,
            Topic::UploadProgress => "upload-progress"@,
            Topic::ZipProgress => "zip-progress"@,
        }
    }

    /// Computes [`Topic::label`].
    pub fn name(self) -> (r: &'static str)
        ensures
            r@ == self.label(),
    {
        match self {
            Topic::TotalSize => "total-size",
            Topic::DownloadProgress => "download-progress",
            Topic::UploadProgress => "upload-progress",
            Topic::ZipProgress => "zip-progress",
        }
    }
}

/// What an operation asks to be done next. Whoever carries the operation out
/// performs the action and hands back a [`Reply`].
#[derive(Debug)]
pub enum Action {
    /// Load the settings file of the hosting environment, if there is one.
    LoadEnvironment,
    /// Read the connection setting called `key`.
    LoadSetting { key: String },
    /// Open a network connection to `address`.
    Connect { address: String },
    /// Set up a session on the connection.
    CreateSession,
    /// Perform the protocol handshake.
    Handshake,
    /// Authenticate with a user name and a password.
    Authenticate { username: String, password: String },
    /// Ask the session whether it is authenticated.
    CheckAuthenticated,
    /// Open a command channel.
    OpenChannel,
    /// Start `command` on the channel.
    Execute { command: String },
    /// Read all that the command prints.
    ReadOutput,
    /// Wait until the channel is closed.
    CloseChannel,
    /// Get the exit status of the command.
    ExitStatus,
    /// Get the attributes of the remote entry at `path`.
    Stat { path: String },
    /// Create the remote directory `path` with the permissions `mode`.
    MakeDir { path: String, mode: i32 },
    /// List the entries of the remote directory `path`.
    ReadDir { path: String },
    /// Rename the remote entry `from` to `to`.
    Rename { from: String, to: String },
    /// Delete the remote file `path`.
    Unlink { path: String },
    /// Remove the empty remote directory `path`.
    RemoveDir { path: String },
    /// Open the remote file `path` for reading.
    OpenRemote { path: String },
    /// Create the remote file `path`, or empty it, for writing.
    CreateRemote { path: String },
    /// Read at most `limit` bytes from the open remote file.
    ReadRemote { limit: usize },
    /// Write `data` to the open remote file.
    WriteRemote { data: Vec<u8> },
    /// Read the open remote file to its end, as text.
    ReadRemoteText,
    /// Write `content` to the open remote file.
    WriteRemoteText { content: String },
    /// Close the open remote file.
    CloseRemote,
    /// Give the final component of the local path `path`.
    NameLocal { path: String },
    /// Give the path of `name` in the local downloads directory.
    LocateLocal { name: String },
    /// Claim the local path `path` for the archive, and tell whether it was
    /// taken: where there was nothing, no other can claim it from now on.
    ClaimLocal { path: String },
    /// Create the local file `path`.
    CreateLocal { path: String },
    /// Open the local file `path` for reading.
    OpenLocal { path: String },
    /// Get the size of the open local file.
    MeasureLocal,
    /// Read at most `limit` bytes from the open local file.
    ReadLocal { limit: usize },
    /// Write `data` to the open local file.
    WriteLocal { data: Vec<u8> },
    /// Flush the open local file.
    FlushLocal,
    /// Set up temporary storage for an archive.
    CreateTemp,
    /// Create an empty archive in the temporary storage.
    CreateArchive,
    /// Start the archive entry called `name`.
    StartEntry { name: String },
    /// Write `data` to the archive entry that was started last.
    WriteArchive { data: Vec<u8> },
    /// Complete the archive.
    FinishArchive,
    /// Read the clock.
    ReadClock,
    /// Move the archive out of the temporary storage, to the local path
    /// `to`, which was claimed for it.
    MoveArchive { to: String },
    /// Release the temporary storage and what is left in it.
    DiscardTemp,
    /// Notify the subscribers of `value` under `topic`.
    Emit { topic: Topic, value: u64 },
}

/// An [`Action`] with its texts as sequences of characters.
pub enum ActionModel {
    /// Load the settings file of the hosting environment, if there is one.
    LoadEnvironment,
    /// Read the connection setting called `key`.
    LoadSetting { key: Seq<char> },
    /// Open a network connection to `address`.
    Connect { address: Seq<char> },
    /// Set up a session on the connection.
    CreateSession,
    /// Perform the protocol handshake.
    Handshake,
    /// Authenticate with a user name and a password.
    Authenticate { username: Seq<char>, password: Seq<char> },
    /// Ask the session whether it is authenticated.
    CheckAuthenticated,
    /// Open a command channel.
    OpenChannel,
    /// Start `command` on the channel.
    Execute { command: Seq<char> },
    /// Read all that the command prints.
    ReadOutput,
    /// Wait until the channel is closed.
    CloseChannel,
    /// Get the exit status of the command.
    ExitStatus,
    /// Get the attributes of the remote entry at `path`.
    Stat { path: Seq<char> },
    /// Create the remote directory `path` with the permissions `mode`.
    MakeDir { path: Seq<char>, mode: i32 },
    /// List the entries of the remote directory `path`.
    ReadDir { path: Seq<char> },
    /// Rename the remote entry `from` to `to`.
    Rename { from: Seq<char>, to: Seq<char> },
    /// Delete the remote file `path`.
    Unlink { path: Seq<char> },
    /// Remove the empty remote directory `path`.
    RemoveDir { path: Seq<char> },
    /// Open the remote file `path` for reading.
    OpenRemote { path: Seq<char> },
    /// Create the remote file `path`, or empty it, for writing.
    CreateRemote { path: Seq<char> },
    /// Read at most `limit` bytes from the open remote file.
    ReadRemote { limit: usize },
    /// Write `data` to the open remote file.
    WriteRemote { data: Seq<u8> },
    /// Read the open remote file to its end, as text.
    ReadRemoteText,
    /// Write `content` to the open remote file.
    WriteRemoteText { content: Seq<char> },
    /// Close the open remote file.
    CloseRemote,
    /// Give the final component of the local path `path`.
    NameLocal { path: Seq<char> },
    /// Give the path of `name` in the local downloads directory.
    LocateLocal { name: Seq<char> },
    /// Claim the local path `path` for the archive, and tell whether it was
    /// taken: where there was nothing, no other can claim it from now on.
    ClaimLocal { path: Seq<char> },
    /// Create the local file `path`.
    CreateLocal { path: Seq<char> },
    /// Open the local file `path` for reading.
    OpenLocal { path: Seq<char> },
    /// Get the size of the open local file.
    MeasureLocal,
    /// Read at most `limit` bytes from the open local file.
    ReadLocal { limit: usize },
    /// Write `data` to the open local file.
    WriteLocal { data: Seq<u8> },
    /// Flush the open local file.
    FlushLocal,
    /// Set up temporary storage for an archive.
    CreateTemp,
    /// Create an empty archive in the temporary storage.
    CreateArchive,
    /// Start the archive entry called `name`.
    StartEntry { name: Seq<char> },
    /// Write `data` to the archive entry that was started last.
    WriteArchive { data: Seq<u8> },
    /// Complete the archive.
    FinishArchive,
    /// Read the clock.
    ReadClock,
    /// Move the archive out of the temporary storage, to the local path
    /// `to`, which was claimed for it.
    MoveArchive { to: Seq<char> },
    /// Release the temporary storage and what is left in it.
    DiscardTemp,
    /// Notify the subscribers of `value` under `topic`.
    Emit { topic: Topic, value: u64 },
}

impl View for Action {
    type V = ActionModel;

    open spec fn view(&self) -> ActionModel {
        match self {
            Action::LoadEnvironment => ActionModel::LoadEnvironment,
            Action::LoadSetting { key } => ActionModel::LoadSetting { key: key@ },
            Action::Connect { address } => ActionModel::Connect { address: address@ },
            Action::CreateSession => ActionModel::CreateSession,
            Action::Handshake => ActionModel::Handshake,
            Action::Authenticate { username, password } => ActionModel::Authenticate {
                username: username@,
                password: password@,
            },
            Action::CheckAuthenticated => ActionModel::CheckAuthenticated,
            Action::OpenChannel => ActionModel::OpenChannel,
            Action::Execute { command } => ActionModel::Execute { command: command@ },
            Action::ReadOutput => ActionModel::ReadOutput,
            Action::CloseChannel => ActionModel::CloseChannel,
            Action::ExitStatus => ActionModel::ExitStatus,
            Action::Stat { path } => ActionModel::Stat { path: path@ },
            Action::MakeDir { path, mode } => ActionModel::MakeDir { path: path@, mode: *mode },
            Action::ReadDir { path } => ActionModel::ReadDir { path: path@ },
            Action::Rename { from, to } => ActionModel::Rename { from: from@, to: to@ },
            Action::Unlink { path } => ActionModel::Unlink { path: path@ },
            Action::RemoveDir { path } => ActionModel::RemoveDir { path: path@ },
            Action::OpenRemote { path } => ActionModel::OpenRemote { path: path@ },
            Action::CreateRemote { path } => ActionModel::CreateRemote { path: path@ },
            Action::ReadRemote { limit } => ActionModel::ReadRemote { limit: *limit },
            Action::WriteRemote { data } => ActionModel::WriteRemote { data: data@ },
            Action::ReadRemoteText => ActionModel::ReadRemoteText,
            Action::WriteRemoteText { content } => ActionModel::WriteRemoteText {
                content: content@,
            },
            Action::CloseRemote => ActionModel::CloseRemote,
            Action::NameLocal { path } => ActionModel::NameLocal { path: path@ },
            Action::LocateLocal { name } => ActionModel::LocateLocal { name: name@ },
            Action::ClaimLocal { path } => ActionModel::ClaimLocal { path: path@ },
            Action::CreateLocal { path } => ActionModel::CreateLocal { path: path@ },
            Action::OpenLocal { path } => ActionModel::OpenLocal { path: path@ },
            Action::MeasureLocal => ActionModel::MeasureLocal,
            Action::ReadLocal { limit } => ActionModel::ReadLocal { limit: *limit },
            Action::WriteLocal { data } => ActionModel::WriteLocal { data: data@ },
            Action::FlushLocal => ActionModel::FlushLocal,
            Action::CreateTemp => ActionModel::CreateTemp,
            Action::CreateArchive => ActionModel::CreateArchive,
            Action::StartEntry { name } => ActionModel::StartEntry { name: name@ },
            Action::WriteArchive { data } => ActionModel::WriteArchive { data: data@ },
            Action::FinishArchive => ActionModel::FinishArchive,
            Action::ReadClock => ActionModel::ReadClock,
            Action::MoveArchive { to } => ActionModel::MoveArchive { to: to@ },
            Action::DiscardTemp => ActionModel::DiscardTemp,
            Action::Emit { topic, value } => ActionModel::Emit { topic: *topic, value: *value },
        }
    }
}

/// What came of an action.
#[derive(Debug)]
pub enum Reply {
    /// The action was performed; there is nothing to report.
    Done,
    /// The action failed; the text says why.
    Failed(String),
    /// The channel to the remote file system could not be opened, so the
    /// action was not tried; the text says why.
    Unavailable(String),
    /// The text that the action was to get.
    Text(String),
    /// The answer to a yes-or-no question.
    Flag(bool),
    /// An exit status.
    Code(i32),
    /// The attributes of a remote entry.
    Stat(RemoteStat),
    /// The entries of a remote directory, without `.` and `..`.
    Entries(Vec<RemoteEntry>),
    /// The bytes that were read; none at the end of the file.
    Data(Vec<u8>),
    /// The size of a file, in bytes.
    Size(u64),
    /// What the action was to find does not exist.
    Absent,
    /// The time, in seconds since the epoch.
    Stamp(i64),
}

/// A [`Reply`] with its texts as sequences of characters.
pub enum ReplyModel {
    Done,
    Failed(Seq<char>),
    Unavailable(Seq<char>),
    Text(Seq<char>),
    Flag(bool),
    Code(i32),
    Stat(RemoteStat),
    Entries(Seq<EntryModel>),
    Data(Seq<u8>),
    Size(u64),
    Absent,
    Stamp(i64),
}

impl View for Reply {
    type V = ReplyModel;

    open spec fn view(&self) -> ReplyModel {
        match self {
            Reply::Done => ReplyModel::Done,
            Reply::Failed(d) => ReplyModel::Failed(d@),
            Reply::Unavailable(d) => ReplyModel::Unavailable(d@),
            Reply::Text(t) => ReplyModel::Text(t@),
            Reply::Flag(b) => ReplyModel::Flag(*b),
            Reply::Code(c) => ReplyModel::Code(*c),
            Reply::Stat(s) => ReplyModel::Stat(*s),
            Reply::Entries(v) => ReplyModel::Entries(entry_models(v@)),
            Reply::Data(d) => ReplyModel::Data(d@),
            Reply::Size(n) => ReplyModel::Size(*n),
            Reply::Absent => ReplyModel::Absent,
            Reply::Stamp(s) => ReplyModel::Stamp(*s),
        }
    }
}

/// What an operation hands to its caller when it has succeeded.
#[derive(Debug)]
pub enum Outcome {
    /// Nothing but the success.
    Done,
    /// The listing of a directory.
    Listing(Vec<FileInfo>),
    /// The content of a file.
    Content(String),
    /// The local path at which a file was saved.
    Saved(String),
}

/// An [`Outcome`] with its texts as sequences of characters.
pub enum OutcomeModel {
    Done,
    Listing(Seq<FileInfoModel>),
    Content(Seq<char>),
    Saved(Seq<char>),
}

impl View for Outcome {
    type V = OutcomeModel;

    open spec fn view(&self) -> OutcomeModel {
        match self {
            Outcome::Done => OutcomeModel::Done,
            Outcome::Listing(v) => OutcomeModel::Listing(info_models(v@)),
            Outcome::Content(t) => OutcomeModel::Content(t@),
            Outcome::Saved(p) => OutcomeModel::Saved(p@),
        }
    }
}

/// One turn of an operation of type `M`: it goes on with an action, or it
/// has ended, in success or in failure.
pub enum Turn<M> {
    /// The operation goes on: the action is to be performed, and the reply
    /// handed to the operation as it is now.
    Perform(M, Action),
    /// The operation has succeeded.
    Finished(Outcome),
    /// The operation has failed.
    Failed(Failure),
}

/// A [`Turn`] over models.
pub enum TurnModel<M> {
    Perform(M, ActionModel),
    Finished(OutcomeModel),
    Failed(FailureModel),
}

impl<M: View> View for Turn<M> {
    type V = TurnModel<M::V>;

    open spec fn view(&self) -> TurnModel<M::V> {
        match self {
            Turn::Perform(m, a) => TurnModel::Perform(m@, a@),
            Turn::Finished(o) => TurnModel::Finished(o@),
            Turn::Failed(f) => TurnModel::Failed(f@),
        }
    }
}

/// Whether `action` moves no more than a buffer holds: it reads at most
/// `limit` bytes, or writes at most `limit` bytes.
pub open spec fn fits_buffer(action: ActionModel, limit: usize) -> bool {
    match action {
        ActionModel::ReadRemote { limit: n } => n <= limit,
        ActionModel::WriteRemote { data } => data.len() <= limit,
        ActionModel::ReadLocal { limit: n } => n <= limit,
        ActionModel::WriteLocal { data } => data.len() <= limit,
        ActionModel::WriteArchive { data } => data.len() <= limit,
        _ => true,
    }
}

/// The turn `turn` of an operation that is part of another: `wrap` gives
/// the whole for the part.
pub open spec fn lift<A, B>(turn: TurnModel<A>, wrap: spec_fn(A) -> B) -> TurnModel<B> {
    match turn {
        TurnModel::Perform(m, a) => TurnModel::Perform(wrap(m), a),
        TurnModel::Finished(o) => TurnModel::Finished(o),
        TurnModel::Failed(f) => TurnModel::Failed(f),
    }
}

/// The detail of a reply that is not the one an operation waited for: the
/// reason given with a failure, and a fixed text for any other reply.
pub open spec fn detail(reply: ReplyModel) -> Seq<char> {
    match reply {
        ReplyModel::Failed(d) => d,
        _ => "unexpected reply"@,
    }
}

/// The failure of an operation that waited at `fault` for another reply than
/// `reply`. That the remote file system cannot be reached is a failure of
/// its own, whatever the operation waited for.
pub open spec fn breakdown(fault: Fault, subject: Seq<char>, reply: ReplyModel) -> FailureModel {
    match reply {
        ReplyModel::Unavailable(d) => Fault::OpenSftp.failure(Seq::empty(), d),
        _ => fault.failure(subject, detail(reply)),
    }
}

/// Computes [`breakdown`].
pub fn break_down(fault: Fault, subject: &str, reply: &Reply) -> (r: Failure)
    ensures
        r@ == breakdown(fault, subject@, reply@),
{
    match reply {
        Reply::Unavailable(d) => {
            let r = Fault::OpenSftp.fail("", d.as_str());
            proof {
                reveal_strlit("");
                assert(""@ =~= Seq::<char>::empty());
            }
            r
        },
        Reply::Failed(d) => fault.fail(subject, d.as_str()),
        _ => fault.fail(subject, "unexpected reply"),
    }
}

/// One exchange: an action and the reply to it.
pub struct Exchange {
    pub action: ActionModel,
    pub reply: ReplyModel,
}

/// The exchange of `action` and `reply`.
pub open spec fn exchange(action: ActionModel, reply: ReplyModel) -> Exchange {
    Exchange { action, reply }
}

/// Whether an operation that stands at `turn` and steps by `next` performs
/// exactly the actions of `script`, in order, when each is answered by the
/// reply that `script` gives for it, and stands at `end` after the last.
pub open spec fn plays<M>(
    next: spec_fn(M, ReplyModel) -> TurnModel<M>,
    turn: TurnModel<M>,
    script: Seq<Exchange>,
    end: TurnModel<M>,
) -> bool
    decreases script.len(),
{
    if script.len() == 0 {
        turn == end
    } else {
        match turn {
            TurnModel::Perform(m, a) => a == script[0].action && plays(
                next,
                next(m, script[0].reply),
                script.drop_first(),
                end,
            ),
            _ => false,
        }
    }
}

/// An operation that plays `first` up to `middle`, and from there `second`
/// up to `end`, plays the two scripts in a row.
pub proof fn lemma_plays_in_a_row<M>(
    next: spec_fn(M, ReplyModel) -> TurnModel<M>,
    turn: TurnModel<M>,
    first: Seq<Exchange>,
    middle: TurnModel<M>,
    second: Seq<Exchange>,
    end: TurnModel<M>,
)
    requires
        plays(next, turn, first, middle),
        plays(next, middle, second, end),
    ensures
        plays(next, turn, first + second, end),
    decreases first.len(),
{
    if first.len() == 0 {
        assert(first + second =~= second);
    } else {
        let all = first + second;
        assert(all[0] == first[0]);
        assert(all.drop_first() =~= first.drop_first() + second);
        match turn {
            TurnModel::Perform(m, a) => {
                lemma_plays_in_a_row(
                    next,
                    next(m, first[0].reply),
                    first.drop_first(),
                    middle,
                    second,
                    end,
                );
            },
            _ => {},
        }
    }
}

/// An operation that waits with `action`, and on `reply` takes a turn from
/// which it plays `rest` up to `end`, plays the exchange of the two and then
/// `rest`.
pub proof fn lemma_plays_after<M>(
    next: spec_fn(M, ReplyModel) -> TurnModel<M>,
    m: M,
    action: ActionModel,
    reply: ReplyModel,
    rest: Seq<Exchange>,
    end: TurnModel<M>,
)
    requires
        plays(next, next(m, reply), rest, end),
    ensures
        plays(next, TurnModel::Perform(m, action), seq![Exchange { action, reply }] + rest, end),
{
    let all = seq![Exchange { action, reply }] + rest;
    assert(all[0] == Exchange { action, reply });
    assert(all.drop_first() =~= rest);
}

/// The turn `turn` of an operation that is the first part of another:
/// `wrap` gives the whole for the part, and `then` the turn with which the
/// whole goes on when the part has succeeded.
pub open spec fn chained<A, B>(
    turn: TurnModel<A>,
    wrap: spec_fn(A) -> B,
    then: spec_fn(OutcomeModel) -> TurnModel<B>,
) -> TurnModel<B> {
    match turn {
        TurnModel::Perform(m, a) => TurnModel::Perform(wrap(m), a),
        TurnModel::Finished(o) => then(o),
        TurnModel::Failed(f) => TurnModel::Failed(f),
    }
}

/// What a part plays, the whole plays. Where an operation steps as its part
/// does until the part ends, and the part plays a script, the operation
/// plays the same script.
pub proof fn lemma_plays_chained<A, B>(
    inner: spec_fn(A, ReplyModel) -> TurnModel<A>,
    outer: spec_fn(B, ReplyModel) -> TurnModel<B>,
    wrap: spec_fn(A) -> B,
    then: spec_fn(OutcomeModel) -> TurnModel<B>,
    turn: TurnModel<A>,
    script: Seq<Exchange>,
    end: TurnModel<A>,
)
    requires
        forall|m: A, reply: ReplyModel| #[trigger]
            outer(wrap(m), reply) == chained(inner(m, reply), wrap, then),
        plays(inner, turn, script, end),
    ensures
        plays(outer, chained(turn, wrap, then), script, chained(end, wrap, then)),
    decreases script.len(),
{
    if script.len() > 0 {
        match turn {
            TurnModel::Perform(m, a) => {
                lemma_plays_chained(
                    inner,
                    outer,
                    wrap,
                    then,
                    inner(m, script[0].reply),
                    script.drop_first(),
                    end,
                );
            },
            _ => {},
        }
    }
}

} // verus!
