//! Archive downloads: a set of remote files and directories packed into one
//! archive, which is then moved to the local downloads directory, under a
//! name that is not taken there.

use crate::failure::{Failure, FailureModel, Fault};
use crate::paths::{child, child_path, file_name, file_name_of};
use crate::protocol::{
    break_down, breakdown, Action, ActionModel, Outcome, OutcomeModel, Reply, ReplyModel, Topic,
    Turn, TurnModel,
};
use crate::text::{
    decimal, decimal_string, lemma_decimal_is_injective, lemma_decimal_value,
};
use crate::stat::{
    entry_models, is_directory, is_regular_file, size_or_zero, EntryModel, RemoteEntry,
};
use crate::CHUNK_SIZE;
use vstd::prelude::*;
use vstd::string::*;

verus! {

/// The text that writes the time `secs`, in seconds since the epoch, as a
/// date and a time of day in UTC: year, month, day, hour, minute, second,
/// in digits, with a sign before a year that four digits do not write.
/// There is none where the date lies outside of what the calendar holds.
pub uninterp spec fn utc_digits(secs: i64) -> Option<Seq<char>>;

/// `chrono::DateTime::from_timestamp` gives the date and time in UTC of a
/// number of seconds since the epoch, or nothing where it is out of range;
/// `chrono::DateTime::format` with `%Y%m%d%H%M%S` writes it as digits.
#[verifier::external_body]
fn format_utc(secs: i64) -> (r: Option<String>)
    ensures
        match r {
            Some(digits) => utc_digits(secs) == Some(digits@),
            None => utc_digits(secs) is None,
        },
{
    match chrono::DateTime::from_timestamp(secs, 0) {
        Some(time) => Some(time.format("%Y%m%d%H%M%S").to_string()),
        None => None,
    }
}

/// The name of an archive that was completed at the time written as
/// `digits`.
pub open spec fn archive_name(digits: Seq<char>) -> Seq<char> {
    "downloaded_files_"@ + digits + ".zip"@
}

/// Computes [`archive_name`].
pub fn archive_file_name(digits: &str) -> (r: String)
    ensures
        r@ == archive_name(digits@),
{
    let mut r = String::from_str("downloaded_files_");
    r.append(digits);
    r.append(".zip");
    r
}

/// The name that is tried for an archive after `attempt` others were found
/// taken: the name for the time at first, and then that name with `_` and
/// the number of the attempt behind the digits.
pub open spec fn candidate(digits: Seq<char>, attempt: nat) -> Seq<char> {
    if attempt == 0 {
        archive_name(digits)
    } else {
        "downloaded_files_"@ + digits + "_"@ + decimal(attempt) + ".zip"@
    }
}

/// Computes [`candidate`].
pub fn archive_candidate(digits: &str, attempt: u64) -> (r: String)
    ensures
        r@ == candidate(digits@, attempt as nat),
{
    if attempt == 0 {
        archive_file_name(digits)
    } else {
        let mut r = String::from_str("downloaded_files_");
        r.append(digits);
        r.append("_");
        r.append(decimal_string(attempt).as_str());
        r.append(".zip");
        r
    }
}

/// Times that are written differently give different names.
pub proof fn lemma_archive_name_is_injective(first: Seq<char>, second: Seq<char>)
    requires
        archive_name(first) == archive_name(second),
    ensures
        first == second,
{
    let head = "downloaded_files_"@;
    let tail = ".zip"@;
    let a = archive_name(first);
    let b = archive_name(second);
    assert(a.len() == head.len() + first.len() + tail.len());
    assert(b.len() == head.len() + second.len() + tail.len());
    assert(first =~= a.subrange(head.len() as int, (head.len() + first.len()) as int));
    assert(second =~= b.subrange(head.len() as int, (head.len() + second.len()) as int));
}

/// Attempts that differ give different names: no name is tried twice for
/// one archive, and the name of each attempt is taken by no other.
pub proof fn lemma_candidates_differ(digits: Seq<char>, first: nat, second: nat)
    requires
        first != second,
    ensures
        candidate(digits, first) != candidate(digits, second),
{
    let head = "downloaded_files_"@ + digits;
    let mark = "_"@;
    let tail = ".zip"@;
    lemma_decimal_value(first);
    lemma_decimal_value(second);
    let a = candidate(digits, first);
    let b = candidate(digits, second);
    if a == b {
        if first == 0 {
            assert(a.len() == head.len() + tail.len());
            assert(b.len() == head.len() + mark.len() + decimal(second).len() + tail.len());
        } else if second == 0 {
            assert(b.len() == head.len() + tail.len());
            assert(a.len() == head.len() + mark.len() + decimal(first).len() + tail.len());
        } else {
            let start = head.len() + mark.len();
            assert(a.len() == start + decimal(first).len() + tail.len());
            assert(b.len() == start + decimal(second).len() + tail.len());
            assert(decimal(first) =~= a.subrange(
                start as int,
                (start + decimal(first).len()) as int,
            ));
            assert(decimal(second) =~= b.subrange(
                start as int,
                (start + decimal(second).len()) as int,
            ));
            lemma_decimal_is_injective(first, second);
        }
    }
}

/// The name of an archive completed at `secs` seconds since the epoch.
pub open spec fn archive_name_at(secs: i64) -> Option<Seq<char>> {
    match utc_digits(secs) {
        Some(digits) => Some(archive_name(digits)),
        None => None,
    }
}

/// Computes [`archive_name_at`].
pub fn archive_file_name_at(secs: i64) -> (r: Option<String>)
    ensures
        match r {
            Some(name) => archive_name_at(secs) == Some(name@),
            None => archive_name_at(secs) is None,
        },
{
    match format_utc(secs) {
        Some(digits) => Some(archive_file_name(digits.as_str())),
        None => None,
    }
}

/// The sum of two byte counts, held at the largest count that there is.
pub open spec fn capped_sum(a: u64, b: u64) -> u64 {
    if a + b > u64::MAX {
        u64::MAX
    } else {
        (a + b) as u64
    }
}

/// The sizes of `entries` summed up, held at the largest count that there
/// is; an entry whose size the host left out counts as 0.
pub open spec fn entries_size(entries: Seq<EntryModel>) -> u64
    decreases entries.len(),
{
    if entries.len() == 0 {
        0
    } else {
        capped_sum(entries_size(entries.drop_last()), size_or_zero(entries.last().stat))
    }
}

/// Computes [`entries_size`].
pub fn size_of_entries(entries: &Vec<RemoteEntry>) -> (r: u64)
    ensures
        r == entries_size(entry_models(entries@)),
{
    let mut r: u64 = 0;
    let mut i: usize = 0;
    while i < entries.len()
        invariant
            i <= entries.len(),
            r == entries_size(entry_models(entries@).subrange(0, i as int)),
        decreases entries.len() - i,
    {
        proof {
            let all = entry_models(entries@);
            let next = all.subrange(0, i + 1);
            assert(next.drop_last() =~= all.subrange(0, i as int));
            assert(next.last() == entries@[i as int]@);
        }
        r = r.saturating_add(entries[i].stat.size_or_zero());
        i = i + 1;
    }
    proof {
        assert(entry_models(entries@).subrange(0, entries.len() as int) =~= entry_models(
            entries@,
        ));
    }
    r
}

/// Where an archive download stands: the action that it waits for.
#[derive(Clone, Copy, Debug, PartialEq, Eq, Structural)]
pub enum ZipStage {
    /// Temporary storage is being set up.
    MakingTemp,
    /// The empty archive is being created.
    CreatingArchive,
    /// A requested item is being examined for its size.
    Sizing,
    /// The combined size is being announced.
    Announcing,
    /// A requested item is being examined for its kind.
    Classifying,
    /// The file to archive is being examined.
    FileStat,
    /// The size of the file is being announced.
    FileAnnounce,
    /// The file is being opened.
    FileOpen,
    /// The entry for the file is being started.
    FileStart,
    /// A chunk of the file is being read.
    FileRead,
    /// The chunk is being written to the archive.
    FileWrite,
    /// The progress is being reported.
    FileReport,
    /// The file is being closed.
    FileClose,
    /// A directory is being listed.
    DirList,
    /// The size of the entries of the directory is being announced.
    DirAnnounce,
    /// The archive is being completed.
    Finishing,
    /// The clock is being read.
    Timing,
    /// The place of the archive among the downloads is being looked up.
    Locating,
    /// That place is being claimed.
    Claiming,
    /// The archive is being moved there.
    Moving,
    /// The temporary storage is being released after the success.
    Discarding,
    /// The temporary storage is being released after a failure.
    Abandoning,
}

/// A directory that is being walked.
#[derive(Debug)]
pub struct Frame {
    /// The remote path of the directory.
    remote: String,
    /// The name of the directory in the archive.
    prefix: String,
    /// The entries of the directory.
    entries: Vec<RemoteEntry>,
    /// The index of the entry that is being archived, or that is to be
    /// looked at next.
    next: usize,
}

/// A [`Frame`] as a mathematical value.
pub struct FrameModel {
    pub remote: Seq<char>,
    pub prefix: Seq<char>,
    pub entries: Seq<EntryModel>,
    pub next: nat,
}

impl View for Frame {
    type V = FrameModel;

    closed spec fn view(&self) -> FrameModel {
        FrameModel {
            remote: self.remote@,
            prefix: self.prefix@,
            entries: entry_models(self.entries@),
            next: self.next as nat,
        }
    }
}

/// The frames of `v` as models.
pub open spec fn frame_models(v: Seq<Frame>) -> Seq<FrameModel> {
    v.map_values(|f: Frame| f@)
}

/// An archive download in progress.
#[derive(Debug)]
pub struct ZipDownload {
    stage: ZipStage,
    /// The remote directory that holds the requested items.
    dir: String,
    /// The names of the requested items.
    names: Vec<String>,
    /// The index of the requested item that is being handled.
    item: usize,
    /// The combined size of the requested items examined so far.
    total: u64,
    /// The directories that are being walked, the outermost first.
    frames: Vec<Frame>,
    /// The remote path of the file or directory that is being handled.
    remote: String,
    /// Its name in the archive.
    entry: String,
    /// The number of bytes of the current file archived so far.
    moved: u64,
    /// The failure to report once the temporary storage is released.
    failure: Option<Failure>,
    /// The time at which the archive was completed, written as digits.
    stamp: String,
    /// The number of names that were found taken.
    attempt: u64,
    /// The local path that is tried for the archive.
    local: String,
}

/// A [`ZipDownload`] as a mathematical value.
pub struct ZipModel {
    pub stage: ZipStage,
    pub dir: Seq<char>,
    pub names: Seq<Seq<char>>,
    pub item: nat,
    pub total: u64,
    pub frames: Seq<FrameModel>,
    pub remote: Seq<char>,
    pub entry: Seq<char>,
    pub moved: u64,
    pub failure: Option<FailureModel>,
    pub stamp: Seq<char>,
    pub attempt: u64,
    pub local: Seq<char>,
}

impl View for ZipDownload {
    type V = ZipModel;

    closed spec fn view(&self) -> ZipModel {
        ZipModel {
            stage: self.stage,
            dir: self.dir@,
            names: self.names.deep_view(),
            item: self.item as nat,
            total: self.total,
            frames: frame_models(self.frames@),
            remote: self.remote@,
            entry: self.entry@,
            moved: self.moved,
            failure: match self.failure {
                Some(f) => Some(f@),
                None => None,
            },
            stamp: self.stamp@,
            attempt: self.attempt,
            local: self.local@,
        }
    }
}

/// Whether the walk stops at `entry`: at a file or a directory, which it
/// archives, and at an entry without a final component, at which it fails.
pub open spec fn stops_at(entry: EntryModel) -> bool {
    file_name(entry.path) is None || is_regular_file(entry.stat) || is_directory(entry.stat)
}

/// The index of the first entry from `from` on at which the walk stops, or
/// the number of entries where it stops at none.
pub open spec fn next_stop(entries: Seq<EntryModel>, from: nat) -> nat
    decreases entries.len() - from,
{
    if from >= entries.len() {
        entries.len()
    } else if stops_at(entries[from as int]) {
        from
    } else {
        next_stop(entries, from + 1)
    }
}

impl ZipModel {
    /// The download as it starts.
    pub open spec fn initial(dir: Seq<char>, names: Seq<Seq<char>>) -> ZipModel {
        ZipModel {
            stage: ZipStage::MakingTemp,
            dir,
            names,
            item: 0,
            total: 0,
            frames: Seq::empty(),
            remote: Seq::empty(),
            entry: Seq::empty(),
            moved: 0,
            failure: None,
            stamp: Seq::empty(),
            attempt: 0,
            local: Seq::empty(),
        }
    }

    /// The first turn of a download of the items `names` of `dir`.
    pub open spec fn start(dir: Seq<char>, names: Seq<Seq<char>>) -> TurnModel<ZipModel> {
        TurnModel::Perform(ZipModel::initial(dir, names), ActionModel::CreateTemp)
    }

    /// The download at `stage`, all else unchanged.
    pub open spec fn at(self, stage: ZipStage) -> ZipModel {
        ZipModel { stage, ..self }
    }

    /// The remote path of the requested item that is being handled.
    pub open spec fn item_path(self) -> Seq<char> {
        if self.item < self.names.len() {
            child(self.dir, self.names[self.item as int])
        } else {
            Seq::empty()
        }
    }

    /// The turn that gives the download up: the temporary storage is
    /// released, and `failure` reported after that.
    pub open spec fn abandon(self, failure: FailureModel) -> TurnModel<ZipModel> {
        TurnModel::Perform(
            ZipModel { stage: ZipStage::Abandoning, failure: Some(failure), ..self },
            ActionModel::DiscardTemp,
        )
    }

    /// The turn that starts to archive the file at `remote` under the name
    /// `entry`.
    pub open spec fn begin_file(self, remote: Seq<char>, entry: Seq<char>) -> TurnModel<ZipModel> {
        TurnModel::Perform(
            ZipModel { stage: ZipStage::FileStat, remote, entry, moved: 0, ..self },
            ActionModel::Stat { path: remote },
        )
    }

    /// The turn that starts to archive the directory at `remote` under the
    /// name `entry`.
    pub open spec fn begin_dir(self, remote: Seq<char>, entry: Seq<char>) -> TurnModel<ZipModel> {
        TurnModel::Perform(
            ZipModel { stage: ZipStage::DirList, remote, entry, ..self },
            ActionModel::ReadDir { path: remote },
        )
    }

    /// The download with nothing left of the file or directory that was
    /// being handled.
    pub open spec fn settled(self) -> ZipModel {
        ZipModel { remote: Seq::empty(), entry: Seq::empty(), moved: 0, ..self }
    }

    /// The download with the entry that was being handled behind it: the
    /// next entry of the innermost directory, or the next requested item.
    pub open spec fn past_current(self) -> ZipModel {
        if self.frames.len() > 0 {
            let top = self.frames.last();
            if top.next < top.entries.len() {
                ZipModel {
                    frames: self.frames.drop_last().push(
                        FrameModel { next: top.next + 1, ..top },
                    ),
                    ..self
                }
            } else {
                self
            }
        } else if self.item < self.names.len() {
            ZipModel { item: self.item + 1, ..self }
        } else {
            self
        }
    }

    /// The turn that goes on with what is left to archive: the next file or
    /// directory of the innermost directory that is being walked; where
    /// that directory holds no more, what follows it in the directory
    /// around it; outside of all directories, the next requested item; and
    /// where none is left, the completion of the archive.
    pub open spec fn seek(self) -> TurnModel<ZipModel>
        decreases self.frames.len(),
    {
        if self.frames.len() == 0 {
            if self.item < self.names.len() {
                TurnModel::Perform(
                    self.at(ZipStage::Classifying),
                    ActionModel::Stat { path: self.item_path() },
                )
            } else {
                TurnModel::Perform(self.at(ZipStage::Finishing), ActionModel::FinishArchive)
            }
        } else {
            let top = self.frames.last();
            let stop = next_stop(top.entries, top.next);
            if stop >= top.entries.len() {
                ZipModel { frames: self.frames.drop_last(), ..self }.past_current().seek()
            } else {
                let at_stop = ZipModel {
                    frames: self.frames.drop_last().push(FrameModel { next: stop, ..top }),
                    ..self
                };
                let found = top.entries[stop as int];
                match file_name(found.path) {
                    None => at_stop.abandon(Fault::EntryName.failure(top.remote, Seq::empty())),
                    Some(name) => if is_regular_file(found.stat) {
                        at_stop.begin_file(child(top.remote, name), child(top.prefix, name))
                    } else {
                        at_stop.begin_dir(child(top.remote, name), child(top.prefix, name))
                    },
                }
            }
        }
    }

    /// The turn that the download takes on `reply`.
    pub open spec fn next(self, reply: ReplyModel) -> TurnModel<ZipModel> {
        match self.stage {
            ZipStage::MakingTemp => match reply {
                ReplyModel::Done => TurnModel::Perform(
                    self.at(ZipStage::CreatingArchive),
                    ActionModel::CreateArchive,
                ),
                _ => TurnModel::Failed(breakdown(Fault::CreateTemp, Seq::empty(), reply)),
            },
            ZipStage::CreatingArchive => match reply {
                ReplyModel::Done => ZipModel { item: 0, total: 0, ..self }.size_next(),
                _ => self.abandon(breakdown(Fault::CreateArchive, Seq::empty(), reply)),
            },
            ZipStage::Sizing => match reply {
                ReplyModel::Stat(stat) => if self.item < self.names.len() {
                    ZipModel {
                        item: self.item + 1,
                        total: capped_sum(self.total, size_or_zero(stat)),
                        ..self
                    }.size_next()
                } else {
                    self.size_next()
                },
                _ => self.abandon(breakdown(Fault::StatRemoteFile, self.item_path(), reply)),
            },
            ZipStage::Announcing => ZipModel { item: 0, ..self }.seek(),
            ZipStage::Classifying => match reply {
                ReplyModel::Stat(stat) => if self.item >= self.names.len() {
                    self.seek()
                } else if is_regular_file(stat) {
                    self.begin_file(self.item_path(), self.names[self.item as int])
                } else if is_directory(stat) {
                    self.begin_dir(self.item_path(), self.names[self.item as int])
                } else {
                    self.past_current().seek()
                },
                _ => self.abandon(breakdown(Fault::StatRemoteFile, self.item_path(), reply)),
            },
            ZipStage::FileStat => match reply {
                ReplyModel::Stat(stat) => match stat.size {
                    Some(size) => TurnModel::Perform(
                        self.at(ZipStage::FileAnnounce),
                        ActionModel::Emit { topic: Topic::TotalSize, value: size },
                    ),
                    None => self.abandon(Fault::NoFileSize.failure(Seq::empty(), Seq::empty())),
                },
                _ => self.abandon(breakdown(Fault::StatRemoteFile, self.remote, reply)),
            },
            ZipStage::FileAnnounce => TurnModel::Perform(
                self.at(ZipStage::FileOpen),
                ActionModel::OpenRemote { path: self.remote },
            ),
            ZipStage::FileOpen => match reply {
                ReplyModel::Done => TurnModel::Perform(
                    self.at(ZipStage::FileStart),
                    ActionModel::StartEntry { name: self.entry },
                ),
                _ => self.abandon(breakdown(Fault::OpenRemoteFile, self.remote, reply)),
            },
            ZipStage::FileStart => match reply {
                ReplyModel::Done => TurnModel::Perform(
                    self.at(ZipStage::FileRead),
                    ActionModel::ReadRemote { limit: CHUNK_SIZE },
                ),
                _ => self.abandon(breakdown(Fault::StartEntry, Seq::empty(), reply)),
            },
            ZipStage::FileRead => match reply {
                ReplyModel::Data(data) => if data.len() == 0 {
                    TurnModel::Perform(self.at(ZipStage::FileClose), ActionModel::CloseRemote)
                } else if data.len() <= CHUNK_SIZE {
                    TurnModel::Perform(
                        ZipModel {
                            stage: ZipStage::FileWrite,
                            moved: capped_sum(self.moved, data.len() as u64),
                            ..self
                        },
                        ActionModel::WriteArchive { data },
                    )
                } else {
                    self.abandon(breakdown(Fault::ReadRemoteFile, self.remote, reply))
                },
                _ => self.abandon(breakdown(Fault::ReadRemoteFile, self.remote, reply)),
            },
            ZipStage::FileWrite => match reply {
                ReplyModel::Done => TurnModel::Perform(
                    self.at(ZipStage::FileReport),
                    ActionModel::Emit { topic: Topic::ZipProgress, value: self.moved },
                ),
                _ => self.abandon(breakdown(Fault::WriteArchive, Seq::empty(), reply)),
            },
            ZipStage::FileReport => TurnModel::Perform(
                self.at(ZipStage::FileRead),
                ActionModel::ReadRemote { limit: CHUNK_SIZE },
            ),
            ZipStage::FileClose => self.settled().past_current().seek(),
            ZipStage::DirList => match reply {
                ReplyModel::Entries(entries) => TurnModel::Perform(
                    ZipModel {
                        stage: ZipStage::DirAnnounce,
                        frames: self.frames.push(
                            FrameModel {
                                remote: self.remote,
                                prefix: self.entry,
                                entries,
                                next: 0,
                            },
                        ),
                        ..self.settled()
                    },
                    ActionModel::Emit { topic: Topic::TotalSize, value: entries_size(entries) },
                ),
                _ => self.abandon(breakdown(Fault::ReadDirectory, self.remote, reply)),
            },
            ZipStage::DirAnnounce => self.seek(),
            ZipStage::Finishing => match reply {
                ReplyModel::Done => TurnModel::Perform(
                    self.at(ZipStage::Timing),
                    ActionModel::ReadClock,
                ),
                _ => self.abandon(breakdown(Fault::FinishArchive, Seq::empty(), reply)),
            },
            ZipStage::Timing => match reply {
                ReplyModel::Stamp(secs) => match utc_digits(secs) {
                    Some(stamp) => ZipModel { stamp, attempt: 0, ..self }.locate(),
                    None => self.abandon(Fault::NameArchive.failure(Seq::empty(), Seq::empty())),
                },
                _ => self.abandon(Fault::NameArchive.failure(Seq::empty(), Seq::empty())),
            },
            ZipStage::Locating => match reply {
                ReplyModel::Text(path) => TurnModel::Perform(
                    ZipModel { stage: ZipStage::Claiming, local: path, ..self },
                    ActionModel::ClaimLocal { path },
                ),
                _ => self.abandon(Fault::NoDownloads.failure(Seq::empty(), Seq::empty())),
            },
            ZipStage::Claiming => match reply {
                ReplyModel::Flag(taken) => if !taken {
                    TurnModel::Perform(
                        self.at(ZipStage::Moving),
                        ActionModel::MoveArchive { to: self.local },
                    )
                } else if self.attempt < u64::MAX {
                    ZipModel { attempt: (self.attempt + 1) as u64, ..self }.locate()
                } else {
                    self.abandon(Fault::NameArchive.failure(Seq::empty(), Seq::empty()))
                },
                _ => self.abandon(breakdown(Fault::MoveArchive, Seq::empty(), reply)),
            },
            ZipStage::Moving => match reply {
                ReplyModel::Done => TurnModel::Perform(
                    self.at(ZipStage::Discarding),
                    ActionModel::DiscardTemp,
                ),
                _ => self.abandon(breakdown(Fault::MoveArchive, Seq::empty(), reply)),
            },
            ZipStage::Discarding => match reply {
                ReplyModel::Done => TurnModel::Finished(OutcomeModel::Done),
                _ => TurnModel::Failed(breakdown(Fault::DiscardTemp, Seq::empty(), reply)),
            },
            ZipStage::Abandoning => match self.failure {
                Some(failure) => TurnModel::Failed(failure),
                None => TurnModel::Failed(breakdown(Fault::DiscardTemp, Seq::empty(), reply)),
            },
        }
    }

    /// The turn that looks up the place among the downloads of the name that
    /// is tried next.
    pub open spec fn locate(self) -> TurnModel<ZipModel> {
        TurnModel::Perform(
            self.at(ZipStage::Locating),
            ActionModel::LocateLocal { name: candidate(self.stamp, self.attempt as nat) },
        )
    }

    /// The turn that examines the requested item at `item` for its size, or
    /// announces the combined size where every item has been examined.
    pub open spec fn size_next(self) -> TurnModel<ZipModel> {
        if self.item < self.names.len() {
            TurnModel::Perform(
                self.at(ZipStage::Sizing),
                ActionModel::Stat { path: self.item_path() },
            )
        } else {
            TurnModel::Perform(
                self.at(ZipStage::Announcing),
                ActionModel::Emit { topic: Topic::TotalSize, value: self.total },
            )
        }
    }
}

/// Computes [`stops_at`].
fn stops(entry: &RemoteEntry) -> (r: bool)
    ensures
        r == stops_at(entry@),
{
    entry.stat.is_file() || entry.stat.is_dir() || file_name_of(entry.path.as_str()).is_none()
}

/// Computes [`next_stop`].
fn find_stop(entries: &Vec<RemoteEntry>, from: usize) -> (r: usize)
    ensures
        r == next_stop(entry_models(entries@), from as nat),
{
    let mut k: usize = from;
    while k < entries.len() && !stops(&entries[k])
        invariant
            next_stop(entry_models(entries@), k as nat) == next_stop(
                entry_models(entries@),
                from as nat,
            ),
        decreases entries.len() - k,
    {
        k = k + 1;
    }
    if k >= entries.len() {
        entries.len()
    } else {
        k
    }
}

impl ZipDownload {
    /// Starts the download of the items `names` of the remote directory
    /// `dir` as one archive.
    pub fn start(dir: String, names: Vec<String>) -> (t: Turn<ZipDownload>)
        ensures
            t@ == ZipModel::start(dir@, names.deep_view()),
    {
        let m = ZipDownload {
            stage: ZipStage::MakingTemp,
            dir,
            names,
            item: 0,
            total: 0,
            frames: Vec::new(),
            remote: String::new(),
            entry: String::new(),
            moved: 0,
            failure: None,
            stamp: String::new(),
            attempt: 0,
            local: String::new(),
        };
        assert(m@.frames =~= Seq::empty());
        Turn::Perform(m, Action::CreateTemp)
    }

    /// The download at `stage`, all else unchanged, with `action` to
    /// perform.
    fn go(self, stage: ZipStage, action: Action) -> (t: Turn<ZipDownload>)
        ensures
            t@ == TurnModel::Perform(self@.at(stage), action@),
    {
        let mut m = self;
        m.stage = stage;
        Turn::Perform(m, action)
    }

    /// Computes [`ZipModel::item_path`].
    fn item_path(&self) -> (r: String)
        ensures
            r@ == self@.item_path(),
    {
        if self.item < self.names.len() {
            child_path(self.dir.as_str(), self.names[self.item].as_str())
        } else {
            String::new()
        }
    }

    /// Computes [`ZipModel::abandon`].
    fn abandon(self, failure: Failure) -> (t: Turn<ZipDownload>)
        ensures
            t@ == self@.abandon(failure@),
    {
        let mut m = self;
        m.stage = ZipStage::Abandoning;
        m.failure = Some(failure);
        Turn::Perform(m, Action::DiscardTemp)
    }

    /// Computes [`ZipModel::begin_file`].
    fn begin_file(self, remote: String, entry: String) -> (t: Turn<ZipDownload>)
        ensures
            t@ == self@.begin_file(remote@, entry@),
    {
        let mut m = self;
        m.stage = ZipStage::FileStat;
        let path = remote.clone();
        m.remote = remote;
        m.entry = entry;
        m.moved = 0;
        Turn::Perform(m, Action::Stat { path })
    }

    /// Computes [`ZipModel::begin_dir`].
    fn begin_dir(self, remote: String, entry: String) -> (t: Turn<ZipDownload>)
        ensures
            t@ == self@.begin_dir(remote@, entry@),
    {
        let mut m = self;
        m.stage = ZipStage::DirList;
        let path = remote.clone();
        m.remote = remote;
        m.entry = entry;
        Turn::Perform(m, Action::ReadDir { path })
    }

    /// Computes [`ZipModel::settled`].
    fn settled(self) -> (m: ZipDownload)
        ensures
            m@ == self@.settled(),
    {
        let mut m = self;
        m.remote = String::new();
        m.entry = String::new();
        m.moved = 0;
        m
    }

    /// Computes [`ZipModel::past_current`].
    fn past_current(self) -> (m: ZipDownload)
        ensures
            m@ == self@.past_current(),
    {
        let mut m = self;
        let ghost before = m.frames@;
        if m.frames.len() > 0 {
            let mut top = m.frames.pop().unwrap();
            if top.next < top.entries.len() {
                top.next = top.next + 1;
            }
            m.frames.push(top);
            assert(frame_models(m.frames@) =~= if before.last()@.next < before.last()@.entries.len() {
                frame_models(before).drop_last().push(
                    FrameModel { next: before.last()@.next + 1, ..before.last()@ },
                )
            } else {
                frame_models(before)
            });
        } else if m.item < m.names.len() {
            m.item = m.item + 1;
        }
        m
    }

    /// Computes [`ZipModel::locate`].
    fn locate(self) -> (t: Turn<ZipDownload>)
        ensures
            t@ == self@.locate(),
    {
        let name = archive_candidate(self.stamp.as_str(), self.attempt);
        self.go(ZipStage::Locating, Action::LocateLocal { name })
    }

    /// Computes [`ZipModel::size_next`].
    fn size_next(self) -> (t: Turn<ZipDownload>)
        ensures
            t@ == self@.size_next(),
    {
        if self.item < self.names.len() {
            let path = self.item_path();
            self.go(ZipStage::Sizing, Action::Stat { path })
        } else {
            let value = self.total;
            self.go(ZipStage::Announcing, Action::Emit { topic: Topic::TotalSize, value })
        }
    }

    /// Computes [`ZipModel::seek`]: directories that hold no more are left
    /// one after the other, until there is something to ask for.
    #[verifier::loop_isolation(false)]
    fn seek(self) -> (t: Turn<ZipDownload>)
        ensures
            t@ == self@.seek(),
    {
        let ghost origin = self@;
        let mut m = self;
        loop
            invariant
                m@.seek() == origin.seek(),
            decreases m.frames.len(),
        {
            if m.frames.len() == 0 {
                if m.item < m.names.len() {
                    let path = m.item_path();
                    return m.go(ZipStage::Classifying, Action::Stat { path });
                } else {
                    return m.go(ZipStage::Finishing, Action::FinishArchive);
                }
            }
            let ghost before = m@;
            let ghost frames_before = m.frames@;
            let mut top = m.frames.pop().unwrap();
            assert(frame_models(m.frames@) =~= before.frames.drop_last());
            assert(top@ == before.frames.last());
            let stop = find_stop(&top.entries, top.next);
            if stop >= top.entries.len() {
                assert(m@ == ZipModel { frames: before.frames.drop_last(), ..before });
                m = m.past_current();
            } else {
                top.next = stop;
                let found = &top.entries[stop];
                let is_file = found.stat.is_file();
                match file_name_of(found.path.as_str()) {
                    None => {
                        proof {
                            reveal_strlit("");
                            assert(""@ =~= Seq::<char>::empty());
                        }
                        let fault = Fault::EntryName.fail(top.remote.as_str(), "");
                        let ghost top_model = top@;
                        m.frames.push(top);
                        assert(frame_models(m.frames@) =~= before.frames.drop_last().push(
                            top_model,
                        ));
                        return m.abandon(fault);
                    },
                    Some(name) => {
                        let remote = child_path(top.remote.as_str(), name.as_str());
                        let entry = child_path(top.prefix.as_str(), name.as_str());
                        let ghost top_model = top@;
                        m.frames.push(top);
                        assert(frame_models(m.frames@) =~= before.frames.drop_last().push(
                            top_model,
                        ));
                        if is_file {
                            return m.begin_file(remote, entry);
                        } else {
                            return m.begin_dir(remote, entry);
                        }
                    },
                }
            }
        }
    }

    /// Takes the reply to the action that the download waits for, and
    /// gives the turn that follows.
    pub fn step(self, reply: Reply) -> (t: Turn<ZipDownload>)
        ensures
            t@ == self@.next(reply@),
    {
        proof {
            reveal_strlit("");
            assert(""@ =~= Seq::<char>::empty());
        }
        match self.stage {
            ZipStage::MakingTemp => match reply {
                Reply::Done => self.go(ZipStage::CreatingArchive, Action::CreateArchive),
                _ => Turn::Failed(break_down(Fault::CreateTemp, "", &reply)),
            },
            ZipStage::CreatingArchive => match reply {
                Reply::Done => {
                    let mut m = self;
                    m.item = 0;
                    m.total = 0;
                    m.size_next()
                },
                _ => {
                    let f = break_down(Fault::CreateArchive, "", &reply);
                    self.abandon(f)
                },
            },
            ZipStage::Sizing => match reply {
                Reply::Stat(stat) => {
                    let mut m = self;
                    if m.item < m.names.len() {
                        m.item = m.item + 1;
                        m.total = m.total.saturating_add(stat.size_or_zero());
                    }
                    m.size_next()
                },
                _ => self.give_up_on_item(&reply),
            },
            ZipStage::Announcing => {
                let mut m = self;
                m.item = 0;
                m.seek()
            },
            ZipStage::Classifying => match reply {
                Reply::Stat(stat) => {
                    if self.item >= self.names.len() {
                        self.seek()
                    } else if stat.is_file() {
                        let remote = self.item_path();
                        let entry = self.names[self.item].clone();
                        self.begin_file(remote, entry)
                    } else if stat.is_dir() {
                        let remote = self.item_path();
                        let entry = self.names[self.item].clone();
                        self.begin_dir(remote, entry)
                    } else {
                        self.past_current().seek()
                    }
                },
                _ => self.give_up_on_item(&reply),
            },
            ZipStage::FileStat => match reply {
                Reply::Stat(stat) => match stat.size {
                    Some(size) => self.go(
                        ZipStage::FileAnnounce,
                        Action::Emit { topic: Topic::TotalSize, value: size },
                    ),
                    None => {
                        let f = Fault::NoFileSize.fail("", "");
                        self.abandon(f)
                    },
                },
                _ => {
                    let f = break_down(Fault::StatRemoteFile, self.remote.as_str(), &reply);
                    self.abandon(f)
                },
            },
            ZipStage::FileAnnounce => {
                let path = self.remote.clone();
                self.go(ZipStage::FileOpen, Action::OpenRemote { path })
            },
            ZipStage::FileOpen => match reply {
                Reply::Done => {
                    let name = self.entry.clone();
                    self.go(ZipStage::FileStart, Action::StartEntry { name })
                },
                _ => {
                    let f = break_down(Fault::OpenRemoteFile, self.remote.as_str(), &reply);
                    self.abandon(f)
                },
            },
            ZipStage::FileStart => match reply {
                Reply::Done => self.go(ZipStage::FileRead, Action::ReadRemote { limit: CHUNK_SIZE }),
                _ => {
                    let f = break_down(Fault::StartEntry, "", &reply);
                    self.abandon(f)
                },
            },
            ZipStage::FileRead => match reply {
                Reply::Data(data) => {
                    let n = data.len();
                    if n == 0 {
                        self.go(ZipStage::FileClose, Action::CloseRemote)
                    } else if n <= CHUNK_SIZE {
                        let mut m = self;
                        m.moved = m.moved.saturating_add(n as u64);
                        m.go(ZipStage::FileWrite, Action::WriteArchive { data })
                    } else {
                        let f = Fault::ReadRemoteFile.fail(
                            self.remote.as_str(),
                            "unexpected reply",
                        );
                        self.abandon(f)
                    }
                },
                _ => {
                    let f = break_down(Fault::ReadRemoteFile, self.remote.as_str(), &reply);
                    self.abandon(f)
                },
            },
            ZipStage::FileWrite => match reply {
                Reply::Done => {
                    let value = self.moved;
                    self.go(ZipStage::FileReport, Action::Emit { topic: Topic::ZipProgress, value })
                },
                _ => {
                    let f = break_down(Fault::WriteArchive, "", &reply);
                    self.abandon(f)
                },
            },
            ZipStage::FileReport => self.go(
                ZipStage::FileRead,
                Action::ReadRemote { limit: CHUNK_SIZE },
            ),
            ZipStage::FileClose => self.settled().past_current().seek(),
            ZipStage::DirList => match reply {
                Reply::Entries(entries) => {
                    let mut m = self;
                    let value = size_of_entries(&entries);
                    let ghost before = m.frames@;
                    let frame = Frame {
                        remote: m.remote.clone(),
                        prefix: m.entry.clone(),
                        entries,
                        next: 0,
                    };
                    let ghost frame_model = frame@;
                    m.frames.push(frame);
                    assert(frame_models(m.frames@) =~= frame_models(before).push(frame_model));
                    m.settled().go(
                        ZipStage::DirAnnounce,
                        Action::Emit { topic: Topic::TotalSize, value },
                    )
                },
                _ => {
                    let f = break_down(Fault::ReadDirectory, self.remote.as_str(), &reply);
                    self.abandon(f)
                },
            },
            ZipStage::DirAnnounce => self.seek(),
            ZipStage::Finishing => match reply {
                Reply::Done => self.go(ZipStage::Timing, Action::ReadClock),
                _ => {
                    let f = break_down(Fault::FinishArchive, "", &reply);
                    self.abandon(f)
                },
            },
            ZipStage::Timing => match reply {
                Reply::Stamp(secs) => match format_utc(secs) {
                    Some(stamp) => {
                        let mut m = self;
                        m.stamp = stamp;
                        m.attempt = 0;
                        m.locate()
                    },
                    None => {
                        let f = Fault::NameArchive.fail("", "");
                        self.abandon(f)
                    },
                },
                _ => {
                    let f = Fault::NameArchive.fail("", "");
                    self.abandon(f)
                },
            },
            ZipStage::Locating => match reply {
                Reply::Text(path) => {
                    let mut m = self;
                    m.local = path.clone();
                    m.go(ZipStage::Claiming, Action::ClaimLocal { path })
                },
                _ => {
                    let f = Fault::NoDownloads.fail("", "");
                    self.abandon(f)
                },
            },
            ZipStage::Claiming => match reply {
                Reply::Flag(taken) => {
                    if !taken {
                        let to = self.local.clone();
                        self.go(ZipStage::Moving, Action::MoveArchive { to })
                    } else if self.attempt < u64::MAX {
                        let mut m = self;
                        m.attempt = m.attempt + 1;
                        m.locate()
                    } else {
                        let f = Fault::NameArchive.fail("", "");
                        self.abandon(f)
                    }
                },
                _ => {
                    let f = break_down(Fault::MoveArchive, "", &reply);
                    self.abandon(f)
                },
            },
            ZipStage::Moving => match reply {
                Reply::Done => self.go(ZipStage::Discarding, Action::DiscardTemp),
                _ => {
                    let f = break_down(Fault::MoveArchive, "", &reply);
                    self.abandon(f)
                },
            },
            ZipStage::Discarding => match reply {
                Reply::Done => Turn::Finished(Outcome::Done),
                _ => Turn::Failed(break_down(Fault::DiscardTemp, "", &reply)),
            },
            ZipStage::Abandoning => match self.failure {
                Some(failure) => Turn::Failed(failure),
                None => Turn::Failed(break_down(Fault::DiscardTemp, "", &reply)),
            },
        }
    }

    /// Gives the download up because the requested item that is being
    /// examined could not be.
    fn give_up_on_item(self, reply: &Reply) -> (t: Turn<ZipDownload>)
        requires
            !(reply is Stat),
        ensures
            t@ == self@.abandon(breakdown(Fault::StatRemoteFile, self@.item_path(), reply@)),
    {
        let path = self.item_path();
        let f = break_down(Fault::StatRemoteFile, path.as_str(), reply);
        self.abandon(f)
    }
}

} // verus!
