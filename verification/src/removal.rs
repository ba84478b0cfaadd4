//! Deletion: files are unlinked, directories emptied from the inside out and
//! then removed.

use crate::failure::Fault;
use crate::host::{listing, names_of, Remote};
use crate::paths::{child, child_path};
use crate::protocol::{
    break_down, breakdown, fits_buffer, lemma_plays_after, lemma_plays_in_a_row, plays, Action,
    ActionModel, Exchange, Outcome, OutcomeModel, Reply, ReplyModel, Turn, TurnModel,
};
use crate::stat::{entry_models, is_directory, EntryModel, RemoteEntry};
use crate::CHUNK_SIZE;
use vstd::prelude::*;
use vstd::string::*;

verus! {

/// Where a deletion stands: the action that it waits for.
#[derive(Clone, Copy, Debug, PartialEq, Eq, Structural)]
pub enum RemovalStage {
    /// The current entry is being examined.
    Probing,
    /// The current entry, a file, is being unlinked.
    Unlinking,
    /// The current entry, a directory, is being listed.
    Listing,
    /// The innermost directory, now empty, is being removed.
    Removing,
}

/// A directory that is being emptied.
#[derive(Debug)]
pub struct Level {
    /// The remote path of the directory.
    path: String,
    /// The entries of the directory.
    entries: Vec<RemoteEntry>,
    /// The index of the entry that is being deleted.
    next: usize,
}

/// A [`Level`] as a mathematical value.
pub struct LevelModel {
    pub path: Seq<char>,
    pub entries: Seq<EntryModel>,
    pub next: nat,
}

impl View for Level {
    type V = LevelModel;

    closed spec fn view(&self) -> LevelModel {
        LevelModel {
            path: self.path@,
            entries: entry_models(self.entries@),
            next: self.next as nat,
        }
    }
}

/// The levels of `v` as models.
pub open spec fn level_models(v: Seq<Level>) -> Seq<LevelModel> {
    v.map_values(|l: Level| l@)
}

/// A deletion in progress.
#[derive(Debug)]
pub struct Removal {
    stage: RemovalStage,
    /// The remote directory that holds the entries to delete.
    dir: String,
    /// The names of the entries to delete.
    names: Vec<String>,
    /// The index of the name that is being handled.
    item: usize,
    /// The directories that are being emptied, the outermost first.
    levels: Vec<Level>,
}

/// A [`Removal`] as a mathematical value.
pub struct RemovalModel {
    pub stage: RemovalStage,
    pub dir: Seq<char>,
    pub names: Seq<Seq<char>>,
    pub item: nat,
    pub levels: Seq<LevelModel>,
}

impl View for Removal {
    type V = RemovalModel;

    closed spec fn view(&self) -> RemovalModel {
        RemovalModel {
            stage: self.stage,
            dir: self.dir@,
            names: self.names.deep_view(),
            item: self.item as nat,
            levels: level_models(self.levels@),
        }
    }
}

impl RemovalModel {
    /// The deletion as it starts.
    pub open spec fn initial(dir: Seq<char>, names: Seq<Seq<char>>) -> RemovalModel {
        RemovalModel { stage: RemovalStage::Probing, dir, names, item: 0, levels: Seq::empty() }
    }

    /// The first turn of the deletion of the entries `names` of `dir`.
    pub open spec fn start(dir: Seq<char>, names: Seq<Seq<char>>) -> TurnModel<RemovalModel> {
        RemovalModel::initial(dir, names).proceed()
    }

    /// The deletion at `stage`, all else unchanged.
    pub open spec fn at(self, stage: RemovalStage) -> RemovalModel {
        RemovalModel { stage, ..self }
    }

    /// The remote path of the entry that is being deleted: the current
    /// entry of the innermost directory, or outside of all directories the
    /// current name in `dir`. It is empty where there is no such entry.
    pub open spec fn current(self) -> Seq<char> {
        if self.levels.len() > 0 {
            let top = self.levels.last();
            if top.next < top.entries.len() {
                top.entries[top.next as int].path
            } else {
                Seq::empty()
            }
        } else if self.item < self.names.len() {
            child(self.dir, self.names[self.item as int])
        } else {
            Seq::empty()
        }
    }

    /// The remote path of the innermost directory, empty outside of all.
    pub open spec fn innermost(self) -> Seq<char> {
        if self.levels.len() > 0 {
            self.levels.last().path
        } else {
            Seq::empty()
        }
    }

    /// The deletion with the current entry behind it.
    pub open spec fn past_current(self) -> RemovalModel {
        if self.levels.len() > 0 {
            let top = self.levels.last();
            if top.next < top.entries.len() {
                RemovalModel {
                    levels: self.levels.drop_last().push(
                        LevelModel { next: top.next + 1, ..top },
                    ),
                    ..self
                }
            } else {
                self
            }
        } else if self.item < self.names.len() {
            RemovalModel { item: self.item + 1, ..self }
        } else {
            self
        }
    }

    /// The turn that goes on with what is left to delete: the current entry
    /// is examined; where the innermost directory holds no more, it is
    /// removed; outside of all directories, where no name is left, the
    /// deletion has succeeded.
    pub open spec fn proceed(self) -> TurnModel<RemovalModel> {
        if self.levels.len() > 0 {
            let top = self.levels.last();
            if top.next < top.entries.len() {
                TurnModel::Perform(
                    self.at(RemovalStage::Probing),
                    ActionModel::Stat { path: self.current() },
                )
            } else {
                TurnModel::Perform(
                    self.at(RemovalStage::Removing),
                    ActionModel::RemoveDir { path: top.path },
                )
            }
        } else if self.item < self.names.len() {
            TurnModel::Perform(
                self.at(RemovalStage::Probing),
                ActionModel::Stat { path: self.current() },
            )
        } else {
            TurnModel::Finished(OutcomeModel::Done)
        }
    }

    /// The turn that the deletion takes on `reply`.
    pub open spec fn next(self, reply: ReplyModel) -> TurnModel<RemovalModel> {
        match self.stage {
            RemovalStage::Probing => match reply {
                ReplyModel::Stat(stat) => if is_directory(stat) {
                    TurnModel::Perform(
                        self.at(RemovalStage::Listing),
                        ActionModel::ReadDir { path: self.current() },
                    )
                } else {
                    TurnModel::Perform(
                        self.at(RemovalStage::Unlinking),
                        ActionModel::Unlink { path: self.current() },
                    )
                },
                _ => TurnModel::Failed(breakdown(Fault::Stat, self.current(), reply)),
            },
            RemovalStage::Unlinking => match reply {
                ReplyModel::Done => self.past_current().proceed(),
                _ => TurnModel::Failed(breakdown(Fault::DeleteFile, self.current(), reply)),
            },
            RemovalStage::Listing => match reply {
                ReplyModel::Entries(entries) => RemovalModel {
                    levels: self.levels.push(
                        LevelModel { path: self.current(), entries, next: 0 },
                    ),
                    ..self
                }.proceed(),
                _ => TurnModel::Failed(breakdown(Fault::ReadDirectory, self.current(), reply)),
            },
            RemovalStage::Removing => match reply {
                ReplyModel::Done => if self.levels.len() > 0 {
                    RemovalModel { levels: self.levels.drop_last(), ..self }.past_current().proceed()
                } else {
                    self.proceed()
                },
                _ => TurnModel::Failed(
                    breakdown(Fault::DeleteDirectory, self.innermost(), reply),
                ),
            },
        }
    }
}

impl Removal {
    /// Starts the deletion of the entries `names` of the remote directory
    /// `dir`.
    pub fn start(dir: String, names: Vec<String>) -> (t: Turn<Removal>)
        ensures
            t@ == RemovalModel::start(dir@, names.deep_view()),
    {
        let m = Removal { stage: RemovalStage::Probing, dir, names, item: 0, levels: Vec::new() };
        assert(m@.levels =~= Seq::empty());
        m.proceed()
    }

    /// The turn that waits at `stage` with `action`.
    fn go(self, stage: RemovalStage, action: Action) -> (t: Turn<Removal>)
        ensures
            t@ == TurnModel::Perform(self@.at(stage), action@),
    {
        let mut m = self;
        m.stage = stage;
        Turn::Perform(m, action)
    }

    /// Computes [`RemovalModel::current`].
    fn current(&self) -> (r: String)
        ensures
            r@ == self@.current(),
    {
        if self.levels.len() > 0 {
            let top = &self.levels[self.levels.len() - 1];
            if top.next < top.entries.len() {
                top.entries[top.next].path.clone()
            } else {
                String::new()
            }
        } else if self.item < self.names.len() {
            child_path(self.dir.as_str(), self.names[self.item].as_str())
        } else {
            String::new()
        }
    }

    /// Computes [`RemovalModel::innermost`].
    fn innermost(&self) -> (r: String)
        ensures
            r@ == self@.innermost(),
    {
        if self.levels.len() > 0 {
            self.levels[self.levels.len() - 1].path.clone()
        } else {
            String::new()
        }
    }

    /// Computes [`RemovalModel::past_current`].
    fn past_current(self) -> (m: Removal)
        ensures
            m@ == self@.past_current(),
    {
        let mut m = self;
        let ghost before = m.levels@;
        if m.levels.len() > 0 {
            let mut top = m.levels.pop().unwrap();
            if top.next < top.entries.len() {
                top.next = top.next + 1;
            }
            m.levels.push(top);
            assert(level_models(m.levels@) =~= if before.last()@.next < before.last()@.entries.len() {
                level_models(before).drop_last().push(
                    LevelModel { next: before.last()@.next + 1, ..before.last()@ },
                )
            } else {
                level_models(before)
            });
        } else if m.item < m.names.len() {
            m.item = m.item + 1;
        }
        m
    }

    /// Computes [`RemovalModel::proceed`].
    fn proceed(self) -> (t: Turn<Removal>)
        ensures
            t@ == self@.proceed(),
    {
        if self.levels.len() > 0 {
            let top = &self.levels[self.levels.len() - 1];
            if top.next < top.entries.len() {
                let path = self.current();
                self.go(RemovalStage::Probing, Action::Stat { path })
            } else {
                let path = top.path.clone();
                self.go(RemovalStage::Removing, Action::RemoveDir { path })
            }
        } else if self.item < self.names.len() {
            let path = self.current();
            self.go(RemovalStage::Probing, Action::Stat { path })
        } else {
            Turn::Finished(Outcome::Done)
        }
    }

    /// Takes the reply to the action that the deletion waits for, and gives
    /// the turn that follows.
    pub fn step(self, reply: Reply) -> (t: Turn<Removal>)
        ensures
            t@ == self@.next(reply@),
    {
        match self.stage {
            RemovalStage::Probing => match reply {
                Reply::Stat(stat) => {
                    let path = self.current();
                    if stat.is_dir() {
                        self.go(RemovalStage::Listing, Action::ReadDir { path })
                    } else {
                        self.go(RemovalStage::Unlinking, Action::Unlink { path })
                    }
                },
                _ => Turn::Failed(break_down(Fault::Stat, self.current().as_str(), &reply)),
            },
            RemovalStage::Unlinking => match reply {
                Reply::Done => self.past_current().proceed(),
                _ => Turn::Failed(break_down(Fault::DeleteFile, self.current().as_str(), &reply)),
            },
            RemovalStage::Listing => match reply {
                Reply::Entries(entries) => {
                    let mut m = self;
                    let ghost before = m.levels@;
                    let level = Level { path: m.current(), entries, next: 0 };
                    let ghost level_model = level@;
                    m.levels.push(level);
                    assert(level_models(m.levels@) =~= level_models(before).push(level_model));
                    m.proceed()
                },
                _ => Turn::Failed(
                    break_down(Fault::ReadDirectory, self.current().as_str(), &reply),
                ),
            },
            RemovalStage::Removing => match reply {
                Reply::Done => {
                    let mut m = self;
                    if m.levels.len() > 0 {
                        let ghost before = m.levels@;
                        m.levels.pop();
                        assert(level_models(m.levels@) =~= level_models(before).drop_last());
                        m.past_current().proceed()
                    } else {
                        m.proceed()
                    }
                },
                _ => Turn::Failed(
                    break_down(Fault::DeleteDirectory, self.innermost().as_str(), &reply),
                ),
            },
        }
    }
}

/// The exchanges of the deletion of the entry `t` at the path `path`, with a
/// host that holds `t` there: the entry is examined; a directory is listed,
/// each of its entries deleted in turn, and the directory removed; anything
/// else is unlinked.
pub open spec fn deletion(path: Seq<char>, t: Remote) -> Seq<Exchange>
    decreases t, 0nat,
{
    seq![Exchange { action: ActionModel::Stat { path }, reply: ReplyModel::Stat(t.stat) }] + (
    if is_directory(t.stat) {
        seq![
            Exchange {
                action: ActionModel::ReadDir { path },
                reply: ReplyModel::Entries(listing(path, t.children)),
            },
        ] + deletion_of_all(path, t.children, 0) + seq![
            Exchange { action: ActionModel::RemoveDir { path }, reply: ReplyModel::Done },
        ]
    } else {
        seq![Exchange { action: ActionModel::Unlink { path }, reply: ReplyModel::Done }]
    })
}

/// The exchanges of the deletion of the entries of `dir` from the index
/// `from` on, with a host that holds `entries` there.
pub open spec fn deletion_of_all(dir: Seq<char>, entries: Seq<Remote>, from: nat) -> Seq<
    Exchange,
>
    decreases entries, entries.len() - from,
{
    if from >= entries.len() {
        Seq::empty()
    } else {
        deletion(child(dir, entries[from as int].name), entries[from as int]) + deletion_of_all(
            dir,
            entries,
            from + 1,
        )
    }
}

/// The paths below and at `path`, where the host holds `t`: what a
/// directory holds comes before the directory itself.
pub open spec fn entries_below(path: Seq<char>, t: Remote) -> Seq<Seq<char>>
    decreases t, 0nat,
{
    if is_directory(t.stat) {
        entries_below_all(path, t.children, 0).push(path)
    } else {
        seq![path]
    }
}

/// The paths below and at the entries of `dir` from the index `from` on.
pub open spec fn entries_below_all(dir: Seq<char>, entries: Seq<Remote>, from: nat) -> Seq<
    Seq<char>,
>
    decreases entries, entries.len() - from,
{
    if from >= entries.len() {
        Seq::empty()
    } else {
        entries_below(child(dir, entries[from as int].name), entries[from as int])
            + entries_below_all(dir, entries, from + 1)
    }
}

/// The paths that the actions of `script` delete, in order.
pub open spec fn deleted(script: Seq<Exchange>) -> Seq<Seq<char>>
    decreases script.len(),
{
    if script.len() == 0 {
        Seq::empty()
    } else {
        let before = deleted(script.drop_last());
        match script.last().action {
            ActionModel::Unlink { path } => before.push(path),
            ActionModel::RemoveDir { path } => before.push(path),
            _ => before,
        }
    }
}

impl RemovalModel {
    /// The function by which a deletion steps.
    pub open spec fn stepper() -> spec_fn(RemovalModel, ReplyModel) -> TurnModel<RemovalModel> {
        |m: RemovalModel, reply: ReplyModel| m.next(reply)
    }

    /// Whether there is an entry that is being deleted.
    pub open spec fn has_current(self) -> bool {
        if self.levels.len() > 0 {
            self.levels.last().next < self.levels.last().entries.len()
        } else {
            self.item < self.names.len()
        }
    }
}

/// Two scripts in a row delete what the first deletes and then what the
/// second deletes.
proof fn lemma_deleted_in_a_row(a: Seq<Exchange>, b: Seq<Exchange>)
    ensures
        deleted(a + b) == deleted(a) + deleted(b),
    decreases b.len(),
{
    if b.len() == 0 {
        assert(a + b =~= a);
        assert(deleted(a) + deleted(b) =~= deleted(a));
    } else {
        assert((a + b).drop_last() =~= a + b.drop_last());
        assert((a + b).last() == b.last());
        lemma_deleted_in_a_row(a, b.drop_last());
        let before = deleted(a) + deleted(b.drop_last());
        match b.last().action {
            ActionModel::Unlink { path } => {
                assert(before.push(path) =~= deleted(a) + deleted(b.drop_last()).push(path));
            },
            ActionModel::RemoveDir { path } => {
                assert(before.push(path) =~= deleted(a) + deleted(b.drop_last()).push(path));
            },
            _ => {},
        }
    }
}

/// What one exchange deletes.
proof fn lemma_deleted_one(e: Exchange)
    ensures
        deleted(seq![e]) == match e.action {
            ActionModel::Unlink { path } => seq![path],
            ActionModel::RemoveDir { path } => seq![path],
            _ => Seq::<Seq<char>>::empty(),
        },
{
    let s = seq![e];
    assert(s.drop_last() =~= Seq::<Exchange>::empty());
    assert(deleted(s.drop_last()) =~= Seq::<Seq<char>>::empty());
    assert(s.last() == e);
    match e.action {
        ActionModel::Unlink { path } => {
            assert(Seq::<Seq<char>>::empty().push(path) =~= seq![path]);
        },
        ActionModel::RemoveDir { path } => {
            assert(Seq::<Seq<char>>::empty().push(path) =~= seq![path]);
        },
        _ => {},
    }
}

/// The deletion of an entry deletes the paths below and at it, each once,
/// what a directory holds before the directory.
pub proof fn lemma_deletion_deletes_below(path: Seq<char>, t: Remote)
    ensures
        deleted(deletion(path, t)) == entries_below(path, t),
    decreases t, 0nat,
{
    let probe = Exchange { action: ActionModel::Stat { path }, reply: ReplyModel::Stat(t.stat) };
    lemma_deleted_one(probe);
    if is_directory(t.stat) {
        let list = Exchange {
            action: ActionModel::ReadDir { path },
            reply: ReplyModel::Entries(listing(path, t.children)),
        };
        let inner = deletion_of_all(path, t.children, 0);
        let remove = Exchange {
            action: ActionModel::RemoveDir { path },
            reply: ReplyModel::Done,
        };
        lemma_deleted_one(list);
        lemma_deleted_one(remove);
        lemma_deletion_of_all_deletes_below(path, t.children, 0);
        lemma_deleted_in_a_row(seq![list], inner);
        lemma_deleted_in_a_row(seq![list] + inner, seq![remove]);
        lemma_deleted_in_a_row(seq![probe], seq![list] + inner + seq![remove]);
        assert(deleted(deletion(path, t)) =~= entries_below_all(path, t.children, 0).push(path));
    } else {
        let unlink = Exchange { action: ActionModel::Unlink { path }, reply: ReplyModel::Done };
        lemma_deleted_one(unlink);
        lemma_deleted_in_a_row(seq![probe], seq![unlink]);
        assert(deleted(deletion(path, t)) =~= seq![path]);
    }
}

/// The deletion of the entries of a directory deletes the paths below and
/// at each of them.
pub proof fn lemma_deletion_of_all_deletes_below(dir: Seq<char>, entries: Seq<Remote>, from: nat)
    ensures
        deleted(deletion_of_all(dir, entries, from)) == entries_below_all(dir, entries, from),
    decreases entries, entries.len() - from,
{
    if from < entries.len() {
        let first = deletion(child(dir, entries[from as int].name), entries[from as int]);
        let rest = deletion_of_all(dir, entries, from + 1);
        lemma_deletion_deletes_below(child(dir, entries[from as int].name), entries[from as int]);
        lemma_deletion_of_all_deletes_below(dir, entries, from + 1);
        lemma_deleted_in_a_row(first, rest);
    }
}

/// A deletion that is about to examine its current entry, with a host that
/// holds `t` there, plays the deletion of `t` and then goes on with what
/// follows the entry.
proof fn lemma_plays_deletion(m: RemovalModel, t: Remote)
    requires
        m.has_current(),
    ensures
        plays(
            RemovalModel::stepper(),
            m.proceed(),
            deletion(m.current(), t),
            m.past_current().proceed(),
        ),
    decreases t, 0nat,
{
    let step = RemovalModel::stepper();
    let path = m.current();
    let probing = m.at(RemovalStage::Probing);
    let after = m.past_current().proceed();
    assert(m.proceed() == TurnModel::Perform(probing, ActionModel::Stat { path }));
    assert(probing.current() == path);
    if is_directory(t.stat) {
        let entries = listing(path, t.children);
        let listing_stage = probing.at(RemovalStage::Listing);
        let inside = RemovalModel {
            levels: m.levels.push(LevelModel { path, entries, next: 0 }),
            ..listing_stage
        };
        let emptied = RemovalModel {
            levels: m.levels.push(LevelModel { path, entries, next: t.children.len() }),
            ..listing_stage
        };
        let removing = emptied.at(RemovalStage::Removing);
        let inner = deletion_of_all(path, t.children, 0);
        let remove = seq![
            Exchange { action: ActionModel::RemoveDir { path }, reply: ReplyModel::Done },
        ];
        assert(inside.levels.last() == LevelModel { path, entries, next: 0 });
        assert(emptied.levels.last() == LevelModel { path, entries, next: t.children.len() });
        // the entries of the directory, one after the other
        lemma_plays_all_deletions(inside, t.children, 0);
        assert(inside.levels.drop_last().push(
            LevelModel { next: t.children.len(), ..inside.levels.last() },
        ) =~= emptied.levels);
        assert(plays(step, inside.proceed(), inner, emptied.proceed()));
        // the directory itself
        assert(emptied.proceed() == TurnModel::Perform(
            removing,
            ActionModel::RemoveDir { path },
        ));
        assert(removing.levels.drop_last() =~= m.levels);
        let restored = RemovalModel { levels: removing.levels.drop_last(), ..removing };
        assert(restored.past_current().proceed() == after) by {
            lemma_proceed_ignores_stage(restored.past_current(), m.past_current());
        }
        assert(step(removing, ReplyModel::Done) == after);
        assert(plays(step, after, Seq::empty(), after));
        lemma_plays_after(
            step,
            removing,
            ActionModel::RemoveDir { path },
            ReplyModel::Done,
            Seq::empty(),
            after,
        );
        assert(remove + Seq::<Exchange>::empty() =~= remove);
        lemma_plays_in_a_row(step, inside.proceed(), inner, emptied.proceed(), remove, after);
        // the listing before them
        assert(step(listing_stage, ReplyModel::Entries(entries)) == inside.proceed());
        lemma_plays_after(
            step,
            listing_stage,
            ActionModel::ReadDir { path },
            ReplyModel::Entries(entries),
            inner + remove,
            after,
        );
        // and the examination before that
        assert(step(probing, ReplyModel::Stat(t.stat)) == TurnModel::Perform(
            listing_stage,
            ActionModel::ReadDir { path },
        ));
        let tail = seq![
            Exchange {
                action: ActionModel::ReadDir { path },
                reply: ReplyModel::Entries(entries),
            },
        ] + (inner + remove);
        lemma_plays_after(
            step,
            probing,
            ActionModel::Stat { path },
            ReplyModel::Stat(t.stat),
            tail,
            after,
        );
        assert(deletion(path, t) =~= seq![
            Exchange { action: ActionModel::Stat { path }, reply: ReplyModel::Stat(t.stat) },
        ] + tail);
    } else {
        let unlinking = probing.at(RemovalStage::Unlinking);
        assert(step(probing, ReplyModel::Stat(t.stat)) == TurnModel::Perform(
            unlinking,
            ActionModel::Unlink { path },
        ));
        assert(unlinking.past_current().proceed() == after) by {
            lemma_proceed_ignores_stage(unlinking.past_current(), m.past_current());
        }
        assert(step(unlinking, ReplyModel::Done) == after);
        assert(plays(step, after, Seq::empty(), after));
        lemma_plays_after(
            step,
            unlinking,
            ActionModel::Unlink { path },
            ReplyModel::Done,
            Seq::empty(),
            after,
        );
        let unlink = seq![
            Exchange { action: ActionModel::Unlink { path }, reply: ReplyModel::Done },
        ];
        assert(unlink + Seq::<Exchange>::empty() =~= unlink);
        lemma_plays_after(
            step,
            probing,
            ActionModel::Stat { path },
            ReplyModel::Stat(t.stat),
            unlink,
            after,
        );
    }
}

/// How a deletion goes on does not depend on the stage that it is at.
proof fn lemma_proceed_ignores_stage(a: RemovalModel, b: RemovalModel)
    requires
        a.dir == b.dir,
        a.names == b.names,
        a.item == b.item,
        a.levels == b.levels,
    ensures
        a.proceed() == b.proceed(),
{
    assert(a.at(RemovalStage::Probing) == b.at(RemovalStage::Probing));
    assert(a.at(RemovalStage::Removing) == b.at(RemovalStage::Removing));
}

/// A deletion inside a directory whose entries the host holds as `entries`,
/// about to go on at the entry `from`, plays the deletion of what is left
/// of them and then goes on to remove the directory.
proof fn lemma_plays_all_deletions(m: RemovalModel, entries: Seq<Remote>, from: nat)
    requires
        m.levels.len() > 0,
        m.levels.last().entries == listing(m.levels.last().path, entries),
        m.levels.last().next == from,
        from <= entries.len(),
    ensures
        plays(
            RemovalModel::stepper(),
            m.proceed(),
            deletion_of_all(m.levels.last().path, entries, from),
            RemovalModel {
                levels: m.levels.drop_last().push(
                    LevelModel { next: entries.len(), ..m.levels.last() },
                ),
                ..m
            }.proceed(),
        ),
    decreases entries, entries.len() - from,
{
    let step = RemovalModel::stepper();
    let top = m.levels.last();
    let end = RemovalModel {
        levels: m.levels.drop_last().push(LevelModel { next: entries.len(), ..top }),
        ..m
    };
    if from >= entries.len() {
        assert(end.levels =~= m.levels);
    } else {
        let t = entries[from as int];
        assert(top.entries[from as int].path == child(top.path, t.name));
        assert(m.current() == child(top.path, t.name));
        lemma_plays_deletion(m, t);
        let onward = m.past_current();
        assert(onward.levels.last() == LevelModel { next: from + 1, ..top });
        lemma_plays_all_deletions(onward, entries, from + 1);
        assert(onward.levels.drop_last().push(
            LevelModel { next: entries.len(), ..onward.levels.last() },
        ) =~= end.levels);
        lemma_plays_in_a_row(
            step,
            m.proceed(),
            deletion(child(top.path, t.name), t),
            onward.proceed(),
            deletion_of_all(top.path, entries, from + 1),
            end.proceed(),
        );
    }
}

/// A deletion outside of all directories, about to go on at the name
/// `from`, with a host that holds `entries` under the names to delete,
/// plays the deletion of what is left of them and then succeeds.
proof fn lemma_plays_requested_deletions(m: RemovalModel, entries: Seq<Remote>, from: nat)
    requires
        m.levels.len() == 0,
        m.names == names_of(entries),
        m.item == from,
        from <= entries.len(),
    ensures
        plays(
            RemovalModel::stepper(),
            m.proceed(),
            deletion_of_all(m.dir, entries, from),
            TurnModel::Finished(OutcomeModel::Done),
        ),
    decreases entries.len() - from,
{
    let step = RemovalModel::stepper();
    if from < entries.len() {
        let t = entries[from as int];
        assert(m.current() == child(m.dir, t.name));
        lemma_plays_deletion(m, t);
        let onward = m.past_current();
        lemma_plays_requested_deletions(onward, entries, from + 1);
        lemma_plays_in_a_row(
            step,
            m.proceed(),
            deletion(child(m.dir, t.name), t),
            onward.proceed(),
            deletion_of_all(m.dir, entries, from + 1),
            TurnModel::Finished(OutcomeModel::Done),
        );
    }
}

/// Deleting is complete. Where the host holds `entries` in `dir` and
/// answers each action as that content demands, the deletion of their names
/// performs the exchanges of [`deletion_of_all`] and then succeeds; and
/// these delete every path below and at the entries, each once, what a
/// directory holds before the directory itself.
pub proof fn lemma_deletion_is_complete(dir: Seq<char>, entries: Seq<Remote>)
    ensures
        plays(
            RemovalModel::stepper(),
            RemovalModel::start(dir, names_of(entries)),
            deletion_of_all(dir, entries, 0),
            TurnModel::Finished(OutcomeModel::Done),
        ),
        deleted(deletion_of_all(dir, entries, 0)) == entries_below_all(dir, entries, 0),
{
    lemma_plays_requested_deletions(RemovalModel::initial(dir, names_of(entries)), entries, 0);
    lemma_deletion_of_all_deletes_below(dir, entries, 0);
}

/// A deletion moves nothing through the buffer.
pub proof fn lemma_fits_buffer(m: RemovalModel, reply: ReplyModel)
    ensures
        m.next(reply) matches TurnModel::Perform(_, action) ==> fits_buffer(action, CHUNK_SIZE),
{
}

/// A deletion stops at the first failure. Answered with a failure, it
/// fails at once: it asks for nothing more, and its message names the path
/// at hand and gives the reason.
pub proof fn lemma_failure_ends_deletion(m: RemovalModel, why: Seq<char>)
    ensures
        m.next(ReplyModel::Failed(why)) == TurnModel::<RemovalModel>::Failed(
            match m.stage {
                RemovalStage::Probing => Fault::Stat.failure(m.current(), why),
                RemovalStage::Unlinking => Fault::DeleteFile.failure(m.current(), why),
                RemovalStage::Listing => Fault::ReadDirectory.failure(m.current(), why),
                RemovalStage::Removing => Fault::DeleteDirectory.failure(m.innermost(), why),
            },
        ),
{
}

} // verus!
