//! Transfers of single files, one buffer at a time: downloads to the local
//! downloads directory, and uploads from a local file.

use crate::archive::capped_sum;
use crate::failure::Fault;
use crate::host::{content, readable, within_buffer, Local, Remote};
use crate::paths::{file_name, file_name_of};
use crate::protocol::{
    break_down, breakdown, exchange, fits_buffer, lemma_plays_after, plays, Action, ActionModel,
    Exchange, Outcome, OutcomeModel, Reply, ReplyModel, Topic, Turn, TurnModel,
};
use crate::stat::size_or_zero;
use crate::CHUNK_SIZE;
use vstd::prelude::*;
use vstd::string::*;

verus! {

/// Where a download stands: the action that it waits for.
#[derive(Clone, Copy, Debug, PartialEq, Eq, Structural)]
pub enum DownloadStage {
    /// The remote file is being examined.
    Inspecting,
    /// Its size is being announced.
    Announcing,
    /// The remote file is being opened.
    Opening,
    /// The local path for the file is being looked up.
    Locating,
    /// The local file is being created.
    Creating,
    /// A chunk is being read from the remote file.
    Reading,
    /// The chunk is being written to the local file.
    Writing,
    /// The progress is being reported.
    Reporting,
    /// The remote file is being closed.
    Closing,
    /// The local file is being flushed.
    Flushing,
}

/// The download of one remote file.
#[derive(Debug)]
pub struct Download {
    stage: DownloadStage,
    /// The path of the remote file.
    remote: String,
    /// The path of the local file; empty until it is known.
    local: String,
    /// The number of bytes moved so far.
    moved: u64,
}

/// A [`Download`] as a mathematical value.
pub struct DownloadModel {
    pub stage: DownloadStage,
    pub remote: Seq<char>,
    pub local: Seq<char>,
    pub moved: u64,
}

impl View for Download {
    type V = DownloadModel;

    closed spec fn view(&self) -> DownloadModel {
        DownloadModel {
            stage: self.stage,
            remote: self.remote@,
            local: self.local@,
            moved: self.moved,
        }
    }
}

impl DownloadModel {
    /// The first turn of the download of the file at `remote`.
    pub open spec fn start(remote: Seq<char>) -> TurnModel<DownloadModel> {
        TurnModel::Perform(
            DownloadModel {
                stage: DownloadStage::Inspecting,
                remote,
                local: Seq::empty(),
                moved: 0,
            },
            ActionModel::Stat { path: remote },
        )
    }

    /// The download at `stage`, all else unchanged.
    pub open spec fn at(self, stage: DownloadStage) -> DownloadModel {
        DownloadModel { stage, ..self }
    }

    /// The turn that the download takes on `reply`.
    pub open spec fn next(self, reply: ReplyModel) -> TurnModel<DownloadModel> {
        match self.stage {
            DownloadStage::Inspecting => match reply {
                ReplyModel::Stat(stat) => match stat.size {
                    Some(size) => TurnModel::Perform(
                        self.at(DownloadStage::Announcing),
                        ActionModel::Emit { topic: Topic::TotalSize, value: size },
                    ),
                    None => TurnModel::Failed(
                        Fault::NoFileSize.failure(Seq::empty(), Seq::empty()),
                    ),
                },
                _ => TurnModel::Failed(breakdown(Fault::StatRemoteFile, self.remote, reply)),
            },
            DownloadStage::Announcing => TurnModel::Perform(
                self.at(DownloadStage::Opening),
                ActionModel::OpenRemote { path: self.remote },
            ),
            DownloadStage::Opening => match reply {
                ReplyModel::Done => match file_name(self.remote) {
                    Some(name) => TurnModel::Perform(
                        self.at(DownloadStage::Locating),
                        ActionModel::LocateLocal { name },
                    ),
                    None => TurnModel::Failed(
                        Fault::NoFileName.failure(self.remote, Seq::empty()),
                    ),
                },
                _ => TurnModel::Failed(breakdown(Fault::OpenRemoteFile, self.remote, reply)),
            },
            DownloadStage::Locating => match reply {
                ReplyModel::Text(local) => TurnModel::Perform(
                    DownloadModel { stage: DownloadStage::Creating, local, ..self },
                    ActionModel::CreateLocal { path: local },
                ),
                _ => TurnModel::Failed(Fault::NoDownloads.failure(Seq::empty(), Seq::empty())),
            },
            DownloadStage::Creating => match reply {
                ReplyModel::Done => TurnModel::Perform(
                    self.at(DownloadStage::Reading),
                    ActionModel::ReadRemote { limit: CHUNK_SIZE },
                ),
                _ => TurnModel::Failed(breakdown(Fault::CreateLocalFile, self.local, reply)),
            },
            DownloadStage::Reading => match reply {
                ReplyModel::Data(data) => if data.len() == 0 {
                    TurnModel::Perform(self.at(DownloadStage::Closing), ActionModel::CloseRemote)
                } else if data.len() <= CHUNK_SIZE {
                    TurnModel::Perform(
                        DownloadModel {
                            stage: DownloadStage::Writing,
                            moved: capped_sum(self.moved, data.len() as u64),
                            ..self
                        },
                        ActionModel::WriteLocal { data },
                    )
                } else {
                    TurnModel::Failed(breakdown(Fault::ReadRemoteFile, self.remote, reply))
                },
                _ => TurnModel::Failed(breakdown(Fault::ReadRemoteFile, self.remote, reply)),
            },
            DownloadStage::Writing => match reply {
                ReplyModel::Done => TurnModel::Perform(
                    self.at(DownloadStage::Reporting),
                    ActionModel::Emit { topic: Topic::DownloadProgress, value: self.moved },
                ),
                _ => TurnModel::Failed(breakdown(Fault::WriteLocalFile, self.local, reply)),
            },
            DownloadStage::Reporting => TurnModel::Perform(
                self.at(DownloadStage::Reading),
                ActionModel::ReadRemote { limit: CHUNK_SIZE },
            ),
            DownloadStage::Closing => match reply {
                ReplyModel::Done => TurnModel::Perform(
                    self.at(DownloadStage::Flushing),
                    ActionModel::FlushLocal,
                ),
                _ => TurnModel::Failed(breakdown(Fault::CloseRemoteFile, self.remote, reply)),
            },
            DownloadStage::Flushing => match reply {
                ReplyModel::Done => TurnModel::Finished(OutcomeModel::Saved(self.local)),
                _ => TurnModel::Failed(breakdown(Fault::FlushLocalFile, self.local, reply)),
            },
        }
    }
}

impl Download {
    /// Starts the download of the remote file at `remote` to the local
    /// downloads directory, under the name that it has on the host.
    pub fn start(remote: String) -> (t: Turn<Download>)
        ensures
            t@ == DownloadModel::start(remote@),
    {
        let path = remote.clone();
        Turn::Perform(
            Download { stage: DownloadStage::Inspecting, remote, local: String::new(), moved: 0 },
            Action::Stat { path },
        )
    }

    /// The turn that waits at `stage` with `action`.
    fn go(self, stage: DownloadStage, action: Action) -> (t: Turn<Download>)
        ensures
            t@ == TurnModel::Perform(self@.at(stage), action@),
    {
        let mut m = self;
        m.stage = stage;
        Turn::Perform(m, action)
    }

    /// Takes the reply to the action that the download waits for, and
    /// gives the turn that follows.
    pub fn step(self, reply: Reply) -> (t: Turn<Download>)
        ensures
            t@ == self@.next(reply@),
    {
        proof {
            reveal_strlit("");
            assert(""@ =~= Seq::<char>::empty());
        }
        match self.stage {
            DownloadStage::Inspecting => match reply {
                Reply::Stat(stat) => match stat.size {
                    Some(size) => self.go(
                        DownloadStage::Announcing,
                        Action::Emit { topic: Topic::TotalSize, value: size },
                    ),
                    None => Turn::Failed(Fault::NoFileSize.fail("", "")),
                },
                _ => Turn::Failed(
                    break_down(Fault::StatRemoteFile, self.remote.as_str(), &reply),
                ),
            },
            DownloadStage::Announcing => {
                let path = self.remote.clone();
                self.go(DownloadStage::Opening, Action::OpenRemote { path })
            },
            DownloadStage::Opening => match reply {
                Reply::Done => match file_name_of(self.remote.as_str()) {
                    Some(name) => self.go(DownloadStage::Locating, Action::LocateLocal { name }),
                    None => Turn::Failed(Fault::NoFileName.fail(self.remote.as_str(), "")),
                },
                _ => Turn::Failed(
                    break_down(Fault::OpenRemoteFile, self.remote.as_str(), &reply),
                ),
            },
            DownloadStage::Locating => match reply {
                Reply::Text(local) => {
                    let mut m = self;
                    let path = local.clone();
                    m.local = local;
                    m.go(DownloadStage::Creating, Action::CreateLocal { path })
                },
                _ => Turn::Failed(Fault::NoDownloads.fail("", "")),
            },
            DownloadStage::Creating => match reply {
                Reply::Done => self.go(
                    DownloadStage::Reading,
                    Action::ReadRemote { limit: CHUNK_SIZE },
                ),
                _ => Turn::Failed(
                    break_down(Fault::CreateLocalFile, self.local.as_str(), &reply),
                ),
            },
            DownloadStage::Reading => match reply {
                Reply::Data(data) => {
                    let n = data.len();
                    if n == 0 {
                        self.go(DownloadStage::Closing, Action::CloseRemote)
                    } else if n <= CHUNK_SIZE {
                        let mut m = self;
                        m.moved = m.moved.saturating_add(n as u64);
                        m.go(DownloadStage::Writing, Action::WriteLocal { data })
                    } else {
                        Turn::Failed(
                            Fault::ReadRemoteFile.fail(self.remote.as_str(), "unexpected reply"),
                        )
                    }
                },
                _ => Turn::Failed(
                    break_down(Fault::ReadRemoteFile, self.remote.as_str(), &reply),
                ),
            },
            DownloadStage::Writing => match reply {
                Reply::Done => {
                    let value = self.moved;
                    self.go(
                        DownloadStage::Reporting,
                        Action::Emit { topic: Topic::DownloadProgress, value },
                    )
                },
                _ => Turn::Failed(break_down(Fault::WriteLocalFile, self.local.as_str(), &reply)),
            },
            DownloadStage::Reporting => self.go(
                DownloadStage::Reading,
                Action::ReadRemote { limit: CHUNK_SIZE },
            ),
            DownloadStage::Closing => match reply {
                Reply::Done => self.go(DownloadStage::Flushing, Action::FlushLocal),
                _ => Turn::Failed(
                    break_down(Fault::CloseRemoteFile, self.remote.as_str(), &reply),
                ),
            },
            DownloadStage::Flushing => match reply {
                Reply::Done => Turn::Finished(Outcome::Saved(self.local)),
                _ => Turn::Failed(break_down(Fault::FlushLocalFile, self.local.as_str(), &reply)),
            },
        }
    }
}

/// Where an upload stands: the action that it waits for.
#[derive(Clone, Copy, Debug, PartialEq, Eq, Structural)]
pub enum UploadStage {
    /// The remote file is being created.
    Creating,
    /// The local file is being opened.
    Opening,
    /// The local file is being measured.
    Measuring,
    /// Its size is being announced.
    Announcing,
    /// A chunk is being read from the local file.
    Reading,
    /// The chunk is being written to the remote file.
    Writing,
    /// The progress is being reported.
    Reporting,
    /// The remote file is being closed.
    Closing,
}

/// The upload of one local file.
#[derive(Debug)]
pub struct Upload {
    stage: UploadStage,
    /// The path of the remote file.
    remote: String,
    /// The path of the local file.
    local: String,
    /// The number of bytes moved so far.
    moved: u64,
}

/// An [`Upload`] as a mathematical value.
pub struct UploadModel {
    pub stage: UploadStage,
    pub remote: Seq<char>,
    pub local: Seq<char>,
    pub moved: u64,
}

impl View for Upload {
    type V = UploadModel;

    closed spec fn view(&self) -> UploadModel {
        UploadModel {
            stage: self.stage,
            remote: self.remote@,
            local: self.local@,
            moved: self.moved,
        }
    }
}

impl UploadModel {
    /// The first turn of the upload of the local file `local` to `remote`.
    pub open spec fn start(remote: Seq<char>, local: Seq<char>) -> TurnModel<UploadModel> {
        TurnModel::Perform(
            UploadModel { stage: UploadStage::Creating, remote, local, moved: 0 },
            ActionModel::CreateRemote { path: remote },
        )
    }

    /// The upload at `stage`, all else unchanged.
    pub open spec fn at(self, stage: UploadStage) -> UploadModel {
        UploadModel { stage, ..self }
    }

    /// The turn that the upload takes on `reply`.
    pub open spec fn next(self, reply: ReplyModel) -> TurnModel<UploadModel> {
        match self.stage {
            UploadStage::Creating => match reply {
                ReplyModel::Done => TurnModel::Perform(
                    self.at(UploadStage::Opening),
                    ActionModel::OpenLocal { path: self.local },
                ),
                _ => TurnModel::Failed(breakdown(Fault::CreateRemoteFile, self.remote, reply)),
            },
            UploadStage::Opening => match reply {
                ReplyModel::Done => TurnModel::Perform(
                    self.at(UploadStage::Measuring),
                    ActionModel::MeasureLocal,
                ),
                _ => TurnModel::Failed(breakdown(Fault::OpenLocalFile, self.local, reply)),
            },
            UploadStage::Measuring => match reply {
                ReplyModel::Size(size) => TurnModel::Perform(
                    self.at(UploadStage::Announcing),
                    ActionModel::Emit { topic: Topic::TotalSize, value: size },
                ),
                _ => TurnModel::Failed(breakdown(Fault::LocalMetadata, self.local, reply)),
            },
            UploadStage::Announcing => TurnModel::Perform(
                self.at(UploadStage::Reading),
                ActionModel::ReadLocal { limit: CHUNK_SIZE },
            ),
            UploadStage::Reading => match reply {
                ReplyModel::Data(data) => if data.len() == 0 {
                    TurnModel::Perform(self.at(UploadStage::Closing), ActionModel::CloseRemote)
                } else if data.len() <= CHUNK_SIZE {
                    TurnModel::Perform(
                        UploadModel {
                            stage: UploadStage::Writing,
                            moved: capped_sum(self.moved, data.len() as u64),
                            ..self
                        },
                        ActionModel::WriteRemote { data },
                    )
                } else {
                    TurnModel::Failed(breakdown(Fault::ReadLocalFile, self.local, reply))
                },
                _ => TurnModel::Failed(breakdown(Fault::ReadLocalFile, self.local, reply)),
            },
            UploadStage::Writing => match reply {
                ReplyModel::Done => TurnModel::Perform(
                    self.at(UploadStage::Reporting),
                    ActionModel::Emit { topic: Topic::UploadProgress, value: self.moved },
                ),
                _ => TurnModel::Failed(breakdown(Fault::WriteRemoteFile, self.remote, reply)),
            },
            UploadStage::Reporting => TurnModel::Perform(
                self.at(UploadStage::Reading),
                ActionModel::ReadLocal { limit: CHUNK_SIZE },
            ),
            UploadStage::Closing => match reply {
                ReplyModel::Done => TurnModel::Finished(OutcomeModel::Done),
                _ => TurnModel::Failed(breakdown(Fault::CloseRemoteFile, self.remote, reply)),
            },
        }
    }
}

impl Upload {
    /// Starts the upload of the local file `local` to the remote path
    /// `remote`.
    pub fn start(remote: String, local: String) -> (t: Turn<Upload>)
        ensures
            t@ == UploadModel::start(remote@, local@),
    {
        let path = remote.clone();
        Turn::Perform(
            Upload { stage: UploadStage::Creating, remote, local, moved: 0 },
            Action::CreateRemote { path },
        )
    }

    /// The turn that waits at `stage` with `action`.
    fn go(self, stage: UploadStage, action: Action) -> (t: Turn<Upload>)
        ensures
            t@ == TurnModel::Perform(self@.at(stage), action@),
    {
        let mut m = self;
        m.stage = stage;
        Turn::Perform(m, action)
    }

    /// Takes the reply to the action that the upload waits for, and gives
    /// the turn that follows.
    pub fn step(self, reply: Reply) -> (t: Turn<Upload>)
        ensures
            t@ == self@.next(reply@),
    {
        match self.stage {
            UploadStage::Creating => match reply {
                Reply::Done => {
                    let path = self.local.clone();
                    self.go(UploadStage::Opening, Action::OpenLocal { path })
                },
                _ => Turn::Failed(
                    break_down(Fault::CreateRemoteFile, self.remote.as_str(), &reply),
                ),
            },
            UploadStage::Opening => match reply {
                Reply::Done => self.go(UploadStage::Measuring, Action::MeasureLocal),
                _ => Turn::Failed(break_down(Fault::OpenLocalFile, self.local.as_str(), &reply)),
            },
            UploadStage::Measuring => match reply {
                Reply::Size(size) => self.go(
                    UploadStage::Announcing,
                    Action::Emit { topic: Topic::TotalSize, value: size },
                ),
                _ => Turn::Failed(break_down(Fault::LocalMetadata, self.local.as_str(), &reply)),
            },
            UploadStage::Announcing => self.go(
                UploadStage::Reading,
                Action::ReadLocal { limit: CHUNK_SIZE },
            ),
            UploadStage::Reading => match reply {
                Reply::Data(data) => {
                    let n = data.len();
                    if n == 0 {
                        self.go(UploadStage::Closing, Action::CloseRemote)
                    } else if n <= CHUNK_SIZE {
                        let mut m = self;
                        m.moved = m.moved.saturating_add(n as u64);
                        m.go(UploadStage::Writing, Action::WriteRemote { data })
                    } else {
                        Turn::Failed(
                            Fault::ReadLocalFile.fail(self.local.as_str(), "unexpected reply"),
                        )
                    }
                },
                _ => Turn::Failed(break_down(Fault::ReadLocalFile, self.local.as_str(), &reply)),
            },
            UploadStage::Writing => match reply {
                Reply::Done => {
                    let value = self.moved;
                    self.go(
                        UploadStage::Reporting,
                        Action::Emit { topic: Topic::UploadProgress, value },
                    )
                },
                _ => Turn::Failed(
                    break_down(Fault::WriteRemoteFile, self.remote.as_str(), &reply),
                ),
            },
            UploadStage::Reporting => self.go(
                UploadStage::Reading,
                Action::ReadLocal { limit: CHUNK_SIZE },
            ),
            UploadStage::Closing => match reply {
                Reply::Done => Turn::Finished(Outcome::Done),
                _ => Turn::Failed(
                    break_down(Fault::CloseRemoteFile, self.remote.as_str(), &reply),
                ),
            },
        }
    }
}

/// The exchanges in which the rest of a file is downloaded: the reads from
/// the index `from` on, each followed by a write of what was read and a
/// report of the bytes moved so far, `moved` before the first; then the
/// read that finds the end of the file, the closing and the flushing.
pub open spec fn fetching(chunks: Seq<Seq<u8>>, from: nat, moved: u64) -> Seq<Exchange>
    decreases chunks.len() - from,
{
    if from >= chunks.len() {
        seq![
            exchange(ActionModel::ReadRemote { limit: CHUNK_SIZE }, ReplyModel::Data(Seq::empty())),
            exchange(ActionModel::CloseRemote, ReplyModel::Done),
            exchange(ActionModel::FlushLocal, ReplyModel::Done),
        ]
    } else {
        let n = chunks[from as int];
        let now = capped_sum(moved, n.len() as u64);
        seq![
            exchange(ActionModel::ReadRemote { limit: CHUNK_SIZE }, ReplyModel::Data(n)),
            exchange(ActionModel::WriteLocal { data: n }, ReplyModel::Done),
            exchange(
                ActionModel::Emit { topic: Topic::DownloadProgress, value: now },
                ReplyModel::Done,
            ),
        ] + fetching(chunks, from + 1, now)
    }
}

/// The exchanges of the download of the file `t` at `remote` to the local
/// path `local`.
pub open spec fn downloading(remote: Seq<char>, t: Remote, local: Seq<char>) -> Seq<Exchange> {
    seq![
        exchange(ActionModel::Stat { path: remote }, ReplyModel::Stat(t.stat)),
        exchange(
            ActionModel::Emit { topic: Topic::TotalSize, value: size_or_zero(t.stat) },
            ReplyModel::Done,
        ),
        exchange(ActionModel::OpenRemote { path: remote }, ReplyModel::Done),
        exchange(ActionModel::LocateLocal { name: file_name(remote)->0 }, ReplyModel::Text(local)),
        exchange(ActionModel::CreateLocal { path: local }, ReplyModel::Done),
    ] + fetching(t.chunks, 0, 0)
}

/// What a script has moved: the number of reads from the remote file, the
/// bytes written to the local file, and the progress that was reported
/// last.
pub struct Tally {
    pub reads: nat,
    pub written: Seq<u8>,
    pub progress: u64,
}

/// The tally `tally` after `action`.
pub open spec fn tally_after(tally: Tally, action: ActionModel) -> Tally {
    match action {
        ActionModel::ReadRemote { limit } => Tally { reads: tally.reads + 1, ..tally },
        ActionModel::WriteLocal { data } => Tally { written: tally.written + data, ..tally },
        ActionModel::Emit { topic, value } => if topic == Topic::DownloadProgress {
            Tally { progress: value, ..tally }
        } else {
            tally
        },
        _ => tally,
    }
}

/// The tally `tally` after the actions of `script`.
pub open spec fn tallied(tally: Tally, script: Seq<Exchange>) -> Tally
    decreases script.len(),
{
    if script.len() == 0 {
        tally
    } else {
        tallied(tally_after(tally, script[0].action), script.drop_first())
    }
}

impl DownloadModel {
    /// The function by which a download steps.
    pub open spec fn stepper() -> spec_fn(DownloadModel, ReplyModel) -> TurnModel<DownloadModel> {
        |m: DownloadModel, reply: ReplyModel| m.next(reply)
    }
}

/// The tally after one exchange and then a script.
proof fn lemma_tallied_after(tally: Tally, e: Exchange, rest: Seq<Exchange>)
    ensures
        tallied(tally, seq![e] + rest) == tallied(tally_after(tally, e.action), rest),
{
    let all = seq![e] + rest;
    assert(all[0] == e);
    assert(all.drop_first() =~= rest);
}

/// The empty script leaves the tally as it is.
proof fn lemma_tallied_none(tally: Tally)
    ensures
        tallied(tally, Seq::empty()) == tally,
{
}

/// A download that stands before the read `from` of a file whose reads
/// give `chunks` plays the rest of the fetching and succeeds.
proof fn lemma_plays_fetching(m: DownloadModel, chunks: Seq<Seq<u8>>, from: nat)
    requires
        m.stage == DownloadStage::Reading,
        from <= chunks.len(),
        within_buffer(chunks),
    ensures
        plays(
            DownloadModel::stepper(),
            TurnModel::Perform(m, ActionModel::ReadRemote { limit: CHUNK_SIZE }),
            fetching(chunks, from, m.moved),
            TurnModel::Finished(OutcomeModel::Saved(m.local)),
        ),
    decreases chunks.len() - from,
{
    let step = DownloadModel::stepper();
    let read = ActionModel::ReadRemote { limit: CHUNK_SIZE };
    let end = TurnModel::<DownloadModel>::Finished(OutcomeModel::Saved(m.local));
    if from >= chunks.len() {
        let closing = m.at(DownloadStage::Closing);
        let flushing = m.at(DownloadStage::Flushing);
        assert(step(m, ReplyModel::Data(Seq::empty())) == TurnModel::Perform(
            closing,
            ActionModel::CloseRemote,
        ));
        assert(step(closing, ReplyModel::Done) == TurnModel::Perform(
            flushing,
            ActionModel::FlushLocal,
        ));
        assert(step(flushing, ReplyModel::Done) == end);
        assert(plays(step, end, Seq::empty(), end));
        lemma_plays_after(
            step,
            flushing,
            ActionModel::FlushLocal,
            ReplyModel::Done,
            Seq::empty(),
            end,
        );
        let tail1 = seq![exchange(ActionModel::FlushLocal, ReplyModel::Done)];
        assert(tail1 + Seq::<Exchange>::empty() =~= tail1);
        lemma_plays_after(step, closing, ActionModel::CloseRemote, ReplyModel::Done, tail1, end);
        let tail2 = seq![exchange(ActionModel::CloseRemote, ReplyModel::Done)] + tail1;
        lemma_plays_after(step, m, read, ReplyModel::Data(Seq::empty()), tail2, end);
        assert(fetching(chunks, from, m.moved) =~= seq![exchange(read, ReplyModel::Data(Seq::empty()))]
            + tail2);
    } else {
        let n = chunks[from as int];
        let now = capped_sum(m.moved, n.len() as u64);
        let writing = DownloadModel { stage: DownloadStage::Writing, moved: now, ..m };
        let reporting = writing.at(DownloadStage::Reporting);
        let onward = writing.at(DownloadStage::Reading);
        let rest = fetching(chunks, from + 1, now);
        let report = ActionModel::Emit { topic: Topic::DownloadProgress, value: now };
        assert(step(m, ReplyModel::Data(n)) == TurnModel::Perform(
            writing,
            ActionModel::WriteLocal { data: n },
        ));
        assert(step(writing, ReplyModel::Done) == TurnModel::Perform(reporting, report));
        assert(step(reporting, ReplyModel::Done) == TurnModel::Perform(onward, read));
        lemma_plays_fetching(onward, chunks, from + 1);
        lemma_plays_after(step, reporting, report, ReplyModel::Done, rest, end);
        let tail1 = seq![exchange(report, ReplyModel::Done)] + rest;
        lemma_plays_after(
            step,
            writing,
            ActionModel::WriteLocal { data: n },
            ReplyModel::Done,
            tail1,
            end,
        );
        let tail2 = seq![exchange(ActionModel::WriteLocal { data: n }, ReplyModel::Done)] + tail1;
        lemma_plays_after(step, m, read, ReplyModel::Data(n), tail2, end);
        assert(fetching(chunks, from, m.moved) =~= seq![exchange(read, ReplyModel::Data(n))]
            + tail2);
    }
}

/// A download runs as [`downloading`] says. Where the host holds the
/// readable file `t` at `remote`, a path with a final component, and every
/// action is answered as that file demands and succeeds, the download
/// performs the exchanges of [`downloading`] and then succeeds with the
/// local path.
pub proof fn lemma_download_plays(remote: Seq<char>, t: Remote, local: Seq<char>)
    requires
        readable(t),
        file_name(remote) is Some,
    ensures
        plays(
            DownloadModel::stepper(),
            DownloadModel::start(remote),
            downloading(remote, t, local),
            TurnModel::Finished(OutcomeModel::Saved(local)),
        ),
{
    let step = DownloadModel::stepper();
    let end = TurnModel::<DownloadModel>::Finished(OutcomeModel::Saved(local));
    let inspecting = DownloadModel {
        stage: DownloadStage::Inspecting,
        remote,
        local: Seq::empty(),
        moved: 0,
    };
    let announcing = inspecting.at(DownloadStage::Announcing);
    let opening = inspecting.at(DownloadStage::Opening);
    let locating = inspecting.at(DownloadStage::Locating);
    let creating = DownloadModel { stage: DownloadStage::Creating, local, ..inspecting };
    let reading = creating.at(DownloadStage::Reading);
    let size = size_or_zero(t.stat);
    let name = file_name(remote)->0;
    let e1 = ActionModel::Stat { path: remote };
    let e2 = ActionModel::Emit { topic: Topic::TotalSize, value: size };
    let e3 = ActionModel::OpenRemote { path: remote };
    let e4 = ActionModel::LocateLocal { name };
    let e5 = ActionModel::CreateLocal { path: local };
    let rest = fetching(t.chunks, 0, 0);
    assert(step(inspecting, ReplyModel::Stat(t.stat)) == TurnModel::Perform(announcing, e2));
    assert(step(announcing, ReplyModel::Done) == TurnModel::Perform(opening, e3));
    assert(step(opening, ReplyModel::Done) == TurnModel::Perform(locating, e4));
    assert(step(locating, ReplyModel::Text(local)) == TurnModel::Perform(creating, e5));
    assert(step(creating, ReplyModel::Done) == TurnModel::Perform(
        reading,
        ActionModel::ReadRemote { limit: CHUNK_SIZE },
    ));
    lemma_plays_fetching(reading, t.chunks, 0);
    lemma_plays_after(step, creating, e5, ReplyModel::Done, rest, end);
    let tail1 = seq![exchange(e5, ReplyModel::Done)] + rest;
    lemma_plays_after(step, locating, e4, ReplyModel::Text(local), tail1, end);
    let tail2 = seq![exchange(e4, ReplyModel::Text(local))] + tail1;
    lemma_plays_after(step, opening, e3, ReplyModel::Done, tail2, end);
    let tail3 = seq![exchange(e3, ReplyModel::Done)] + tail2;
    lemma_plays_after(step, announcing, e2, ReplyModel::Done, tail3, end);
    let tail4 = seq![exchange(e2, ReplyModel::Done)] + tail3;
    lemma_plays_after(step, inspecting, e1, ReplyModel::Stat(t.stat), tail4, end);
    assert(downloading(remote, t, local) =~= seq![exchange(e1, ReplyModel::Stat(t.stat))]
        + tail4);
}

/// The tally of the rest of a download: one read more than the host has
/// data to hand out, and what it hands out written in order.
proof fn lemma_fetching_tally(tally: Tally, chunks: Seq<Seq<u8>>, from: nat, moved: u64)
    requires
        from <= chunks.len(),
        moved + content(chunks, from).len() <= u64::MAX,
        from < chunks.len() || tally.progress == moved,
    ensures
        tallied(tally, fetching(chunks, from, moved)) == (Tally {
            reads: tally.reads + (chunks.len() - from) as nat + 1,
            written: tally.written + content(chunks, from),
            progress: (moved + content(chunks, from).len()) as u64,
        }),
    decreases chunks.len() - from,
{
    let read = ActionModel::ReadRemote { limit: CHUNK_SIZE };
    if from >= chunks.len() {
        let e1 = exchange(read, ReplyModel::Data(Seq::empty()));
        let e2 = exchange(ActionModel::CloseRemote, ReplyModel::Done);
        let e3 = exchange(ActionModel::FlushLocal, ReplyModel::Done);
        assert(fetching(chunks, from, moved) =~= seq![e1] + (seq![e2] + (seq![e3]
            + Seq::<Exchange>::empty())));
        let t1 = tally_after(tally, e1.action);
        lemma_tallied_after(tally, e1, seq![e2] + (seq![e3] + Seq::<Exchange>::empty()));
        lemma_tallied_after(t1, e2, seq![e3] + Seq::<Exchange>::empty());
        lemma_tallied_after(t1, e3, Seq::<Exchange>::empty());
        lemma_tallied_none(t1);
        assert(tally.written + content(chunks, from) =~= tally.written);
    } else {
        let n = chunks[from as int];
        let now = capped_sum(moved, n.len() as u64);
        let rest = fetching(chunks, from + 1, now);
        let e1 = exchange(read, ReplyModel::Data(n));
        let e2 = exchange(ActionModel::WriteLocal { data: n }, ReplyModel::Done);
        let e3 = exchange(
            ActionModel::Emit { topic: Topic::DownloadProgress, value: now },
            ReplyModel::Done,
        );
        assert(fetching(chunks, from, moved) =~= seq![e1] + (seq![e2] + (seq![e3] + rest)));
        let t1 = tally_after(tally, e1.action);
        let t2 = tally_after(t1, e2.action);
        let t3 = tally_after(t2, e3.action);
        lemma_tallied_after(tally, e1, seq![e2] + (seq![e3] + rest));
        lemma_tallied_after(t1, e2, seq![e3] + rest);
        lemma_tallied_after(t2, e3, rest);
        assert(content(chunks, from).len() == n.len() + content(chunks, from + 1).len());
        lemma_fetching_tally(t3, chunks, from + 1, now);
        assert((tally.written + n) + content(chunks, from + 1) =~= tally.written + content(
            chunks,
            from,
        ));
    }
}

/// A download moves the file. The exchanges of a download read the remote
/// file once more often than the host has data to hand out, write to the
/// local file exactly the bytes that the host handed out, in order, and
/// report their number last, where the file is not empty.
pub proof fn lemma_download_moves_the_file(remote: Seq<char>, t: Remote, local: Seq<char>)
    requires
        content(t.chunks, 0).len() <= u64::MAX,
    ensures
        tallied(
            Tally { reads: 0, written: Seq::empty(), progress: 0 },
            downloading(remote, t, local),
        ) == (Tally {
            reads: t.chunks.len() + 1,
            written: content(t.chunks, 0),
            progress: content(t.chunks, 0).len() as u64,
        }),
{
    let zero = Tally { reads: 0, written: Seq::empty(), progress: 0 };
    let e1 = exchange(ActionModel::Stat { path: remote }, ReplyModel::Stat(t.stat));
    let e2 = exchange(
        ActionModel::Emit { topic: Topic::TotalSize, value: size_or_zero(t.stat) },
        ReplyModel::Done,
    );
    let e3 = exchange(ActionModel::OpenRemote { path: remote }, ReplyModel::Done);
    let e4 = exchange(
        ActionModel::LocateLocal { name: file_name(remote)->0 },
        ReplyModel::Text(local),
    );
    let e5 = exchange(ActionModel::CreateLocal { path: local }, ReplyModel::Done);
    let rest = fetching(t.chunks, 0, 0);
    assert(downloading(remote, t, local) =~= seq![e1] + (seq![e2] + (seq![e3] + (seq![e4] + (
    seq![e5] + rest)))));
    lemma_tallied_after(zero, e1, seq![e2] + (seq![e3] + (seq![e4] + (seq![e5] + rest))));
    lemma_tallied_after(zero, e2, seq![e3] + (seq![e4] + (seq![e5] + rest)));
    lemma_tallied_after(zero, e3, seq![e4] + (seq![e5] + rest));
    lemma_tallied_after(zero, e4, seq![e5] + rest);
    lemma_tallied_after(zero, e5, rest);
    lemma_fetching_tally(zero, t.chunks, 0, 0);
}

/// The exchanges in which the rest of a file is uploaded: the reads from
/// the index `from` on, each followed by a write of what was read and a
/// report of the bytes moved so far, `moved` before the first; then the
/// read that finds the end of the file, and the closing.
pub open spec fn pushing(chunks: Seq<Seq<u8>>, from: nat, moved: u64) -> Seq<Exchange>
    decreases chunks.len() - from,
{
    if from >= chunks.len() {
        seq![
            exchange(ActionModel::ReadLocal { limit: CHUNK_SIZE }, ReplyModel::Data(Seq::empty())),
            exchange(ActionModel::CloseRemote, ReplyModel::Done),
        ]
    } else {
        let n = chunks[from as int];
        let now = capped_sum(moved, n.len() as u64);
        seq![
            exchange(ActionModel::ReadLocal { limit: CHUNK_SIZE }, ReplyModel::Data(n)),
            exchange(ActionModel::WriteRemote { data: n }, ReplyModel::Done),
            exchange(
                ActionModel::Emit { topic: Topic::UploadProgress, value: now },
                ReplyModel::Done,
            ),
        ] + pushing(chunks, from + 1, now)
    }
}

/// The exchanges of the upload of the local file `file` to `remote`.
pub open spec fn uploading(remote: Seq<char>, file: Local) -> Seq<Exchange> {
    seq![
        exchange(ActionModel::CreateRemote { path: remote }, ReplyModel::Done),
        exchange(ActionModel::OpenLocal { path: file.path }, ReplyModel::Done),
        exchange(ActionModel::MeasureLocal, ReplyModel::Size(file.size)),
        exchange(
            ActionModel::Emit { topic: Topic::TotalSize, value: file.size },
            ReplyModel::Done,
        ),
    ] + pushing(file.chunks, 0, 0)
}

impl UploadModel {
    /// The function by which an upload steps.
    pub open spec fn stepper() -> spec_fn(UploadModel, ReplyModel) -> TurnModel<UploadModel> {
        |m: UploadModel, reply: ReplyModel| m.next(reply)
    }
}

/// An upload that stands before the read `from` of a file whose reads give
/// `chunks` plays the rest of the pushing and succeeds.
proof fn lemma_plays_pushing(m: UploadModel, chunks: Seq<Seq<u8>>, from: nat)
    requires
        m.stage == UploadStage::Reading,
        from <= chunks.len(),
        within_buffer(chunks),
    ensures
        plays(
            UploadModel::stepper(),
            TurnModel::Perform(m, ActionModel::ReadLocal { limit: CHUNK_SIZE }),
            pushing(chunks, from, m.moved),
            TurnModel::Finished(OutcomeModel::Done),
        ),
    decreases chunks.len() - from,
{
    let step = UploadModel::stepper();
    let read = ActionModel::ReadLocal { limit: CHUNK_SIZE };
    let end = TurnModel::<UploadModel>::Finished(OutcomeModel::Done);
    if from >= chunks.len() {
        let closing = m.at(UploadStage::Closing);
        assert(step(m, ReplyModel::Data(Seq::empty())) == TurnModel::Perform(
            closing,
            ActionModel::CloseRemote,
        ));
        assert(step(closing, ReplyModel::Done) == end);
        assert(plays(step, end, Seq::empty(), end));
        lemma_plays_after(
            step,
            closing,
            ActionModel::CloseRemote,
            ReplyModel::Done,
            Seq::empty(),
            end,
        );
        let tail1 = seq![exchange(ActionModel::CloseRemote, ReplyModel::Done)];
        assert(tail1 + Seq::<Exchange>::empty() =~= tail1);
        lemma_plays_after(step, m, read, ReplyModel::Data(Seq::empty()), tail1, end);
        assert(pushing(chunks, from, m.moved) =~= seq![exchange(read, ReplyModel::Data(Seq::empty()))]
            + tail1);
    } else {
        let n = chunks[from as int];
        let now = capped_sum(m.moved, n.len() as u64);
        let writing = UploadModel { stage: UploadStage::Writing, moved: now, ..m };
        let reporting = writing.at(UploadStage::Reporting);
        let onward = writing.at(UploadStage::Reading);
        let rest = pushing(chunks, from + 1, now);
        let report = ActionModel::Emit { topic: Topic::UploadProgress, value: now };
        assert(step(m, ReplyModel::Data(n)) == TurnModel::Perform(
            writing,
            ActionModel::WriteRemote { data: n },
        ));
        assert(step(writing, ReplyModel::Done) == TurnModel::Perform(reporting, report));
        assert(step(reporting, ReplyModel::Done) == TurnModel::Perform(onward, read));
        lemma_plays_pushing(onward, chunks, from + 1);
        lemma_plays_after(step, reporting, report, ReplyModel::Done, rest, end);
        let tail1 = seq![exchange(report, ReplyModel::Done)] + rest;
        lemma_plays_after(
            step,
            writing,
            ActionModel::WriteRemote { data: n },
            ReplyModel::Done,
            tail1,
            end,
        );
        let tail2 = seq![exchange(ActionModel::WriteRemote { data: n }, ReplyModel::Done)] + tail1;
        lemma_plays_after(step, m, read, ReplyModel::Data(n), tail2, end);
        assert(pushing(chunks, from, m.moved) =~= seq![exchange(read, ReplyModel::Data(n))]
            + tail2);
    }
}

/// An upload runs as [`uploading`] says. Where every read of the local
/// file gives at least one byte and at most a buffer full, and every action
/// succeeds, the upload performs the exchanges of [`uploading`] and then
/// succeeds.
pub proof fn lemma_upload_plays(remote: Seq<char>, file: Local)
    requires
        within_buffer(file.chunks),
    ensures
        plays(
            UploadModel::stepper(),
            UploadModel::start(remote, file.path),
            uploading(remote, file),
            TurnModel::Finished(OutcomeModel::Done),
        ),
{
    let step = UploadModel::stepper();
    let end = TurnModel::<UploadModel>::Finished(OutcomeModel::Done);
    let creating = UploadModel {
        stage: UploadStage::Creating,
        remote,
        local: file.path,
        moved: 0,
    };
    let opening = creating.at(UploadStage::Opening);
    let measuring = creating.at(UploadStage::Measuring);
    let announcing = creating.at(UploadStage::Announcing);
    let reading = creating.at(UploadStage::Reading);
    let e1 = ActionModel::CreateRemote { path: remote };
    let e2 = ActionModel::OpenLocal { path: file.path };
    let e3 = ActionModel::MeasureLocal;
    let e4 = ActionModel::Emit { topic: Topic::TotalSize, value: file.size };
    let rest = pushing(file.chunks, 0, 0);
    assert(step(creating, ReplyModel::Done) == TurnModel::Perform(opening, e2));
    assert(step(opening, ReplyModel::Done) == TurnModel::Perform(measuring, e3));
    assert(step(measuring, ReplyModel::Size(file.size)) == TurnModel::Perform(announcing, e4));
    assert(step(announcing, ReplyModel::Done) == TurnModel::Perform(
        reading,
        ActionModel::ReadLocal { limit: CHUNK_SIZE },
    ));
    lemma_plays_pushing(reading, file.chunks, 0);
    lemma_plays_after(step, announcing, e4, ReplyModel::Done, rest, end);
    let tail1 = seq![exchange(e4, ReplyModel::Done)] + rest;
    lemma_plays_after(step, measuring, e3, ReplyModel::Size(file.size), tail1, end);
    let tail2 = seq![exchange(e3, ReplyModel::Size(file.size))] + tail1;
    lemma_plays_after(step, opening, e2, ReplyModel::Done, tail2, end);
    let tail3 = seq![exchange(e2, ReplyModel::Done)] + tail2;
    lemma_plays_after(step, creating, e1, ReplyModel::Done, tail3, end);
    assert(uploading(remote, file) =~= seq![exchange(e1, ReplyModel::Done)] + tail3);
}

/// A download reads and writes no more than a buffer holds at a time.
pub proof fn lemma_download_fits_buffer(m: DownloadModel, reply: ReplyModel)
    ensures
        m.next(reply) matches TurnModel::Perform(_, action) ==> fits_buffer(action, CHUNK_SIZE),
{
}

/// An upload reads and writes no more than a buffer holds at a time.
pub proof fn lemma_upload_fits_buffer(m: UploadModel, reply: ReplyModel)
    ensures
        m.next(reply) matches TurnModel::Perform(_, action) ==> fits_buffer(action, CHUNK_SIZE),
{
}

/// The bytes that the actions of `script` write to the remote file, behind
/// `so_far`.
pub open spec fn sent(so_far: Seq<u8>, script: Seq<Exchange>) -> Seq<u8>
    decreases script.len(),
{
    if script.len() == 0 {
        so_far
    } else {
        sent(
            match script[0].action {
                ActionModel::WriteRemote { data } => so_far + data,
                _ => so_far,
            },
            script.drop_first(),
        )
    }
}

/// What is sent by one exchange and then a script.
proof fn lemma_sent_after(so_far: Seq<u8>, e: Exchange, rest: Seq<Exchange>)
    ensures
        sent(so_far, seq![e] + rest) == sent(
            match e.action {
                ActionModel::WriteRemote { data } => so_far + data,
                _ => so_far,
            },
            rest,
        ),
{
    let all = seq![e] + rest;
    assert(all[0] == e);
    assert(all.drop_first() =~= rest);
}

/// The rest of an upload sends what the reads hand out, in order.
proof fn lemma_pushing_sends(so_far: Seq<u8>, chunks: Seq<Seq<u8>>, from: nat, moved: u64)
    ensures
        sent(so_far, pushing(chunks, from, moved)) == so_far + content(chunks, from),
    decreases chunks.len() - from,
{
    let read = ActionModel::ReadLocal { limit: CHUNK_SIZE };
    if from >= chunks.len() {
        let e1 = exchange(read, ReplyModel::Data(Seq::empty()));
        let e2 = exchange(ActionModel::CloseRemote, ReplyModel::Done);
        assert(pushing(chunks, from, moved) =~= seq![e1] + (seq![e2] + Seq::<Exchange>::empty()));
        lemma_sent_after(so_far, e1, seq![e2] + Seq::<Exchange>::empty());
        lemma_sent_after(so_far, e2, Seq::<Exchange>::empty());
        assert(so_far + content(chunks, from) =~= so_far);
    } else {
        let n = chunks[from as int];
        let now = capped_sum(moved, n.len() as u64);
        let rest = pushing(chunks, from + 1, now);
        let e1 = exchange(read, ReplyModel::Data(n));
        let e2 = exchange(ActionModel::WriteRemote { data: n }, ReplyModel::Done);
        let e3 = exchange(
            ActionModel::Emit { topic: Topic::UploadProgress, value: now },
            ReplyModel::Done,
        );
        assert(pushing(chunks, from, moved) =~= seq![e1] + (seq![e2] + (seq![e3] + rest)));
        lemma_sent_after(so_far, e1, seq![e2] + (seq![e3] + rest));
        lemma_sent_after(so_far, e2, seq![e3] + rest);
        lemma_sent_after(so_far + n, e3, rest);
        lemma_pushing_sends(so_far + n, chunks, from + 1, now);
        assert((so_far + n) + content(chunks, from + 1) =~= so_far + content(chunks, from));
    }
}

/// An upload moves the file. The exchanges of an upload write to the
/// remote file exactly the bytes that the reads of the local file handed
/// out, in order.
pub proof fn lemma_upload_moves_the_file(remote: Seq<char>, file: Local)
    ensures
        sent(Seq::empty(), uploading(remote, file)) == content(file.chunks, 0),
{
    let none = Seq::<u8>::empty();
    let e1 = exchange(ActionModel::CreateRemote { path: remote }, ReplyModel::Done);
    let e2 = exchange(ActionModel::OpenLocal { path: file.path }, ReplyModel::Done);
    let e3 = exchange(ActionModel::MeasureLocal, ReplyModel::Size(file.size));
    let e4 = exchange(
        ActionModel::Emit { topic: Topic::TotalSize, value: file.size },
        ReplyModel::Done,
    );
    let rest = pushing(file.chunks, 0, 0);
    assert(uploading(remote, file) =~= seq![e1] + (seq![e2] + (seq![e3] + (seq![e4] + rest))));
    lemma_sent_after(none, e1, seq![e2] + (seq![e3] + (seq![e4] + rest)));
    lemma_sent_after(none, e2, seq![e3] + (seq![e4] + rest));
    lemma_sent_after(none, e3, seq![e4] + rest);
    lemma_sent_after(none, e4, rest);
    lemma_pushing_sends(none, file.chunks, 0, 0);
    assert(none + content(file.chunks, 0) =~= content(file.chunks, 0));
}

/// A transfer stops at the first failure. Whatever a download or an upload
/// waits for, but for a notification of the subscribers, a failure ends
/// it at once in failure.
pub proof fn lemma_failure_ends_transfer(download: DownloadModel, upload: UploadModel, why: Seq<char>)
    ensures
        download.stage != DownloadStage::Announcing && download.stage != DownloadStage::Reporting
            ==> download.next(ReplyModel::Failed(why)) is Failed,
        upload.stage != UploadStage::Announcing && upload.stage != UploadStage::Reporting
            ==> upload.next(ReplyModel::Failed(why)) is Failed,
{
}

} // verus!
