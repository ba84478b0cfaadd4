//! What an archive download does with a host that holds a given content:
//! the exchanges that it performs, and the entries that the archive gets.

use crate::archive::{
    candidate, capped_sum, entries_size, next_stop, stops_at, utc_digits, FrameModel, ZipModel,
    ZipStage,
};
use crate::failure::Fault;
use crate::host::{content, listing, names_of, readable, within_buffer, Remote};
use crate::paths::{child, lemma_file_name_of_child, proper_name};
use crate::protocol::{
    exchange, fits_buffer, lemma_plays_after, lemma_plays_in_a_row, plays, ActionModel, Exchange,
    OutcomeModel, ReplyModel, Topic, TurnModel,
};
use crate::stat::{is_directory, is_regular_file, size_or_zero, RemoteStat};
use crate::CHUNK_SIZE;
use vstd::prelude::*;

verus! {

/// The function by which an archive download steps.
pub open spec fn stepper() -> spec_fn(ZipModel, ReplyModel) -> TurnModel<ZipModel> {
    |m: ZipModel, reply: ReplyModel| m.next(reply)
}

/// Whether the entry `t` can be archived: a file is readable, and a
/// directory holds entries with proper names that can be archived.
pub open spec fn packable(t: Remote) -> bool
    decreases t, 0nat,
{
    if is_regular_file(t.stat) {
        readable(t)
    } else if is_directory(t.stat) {
        packable_all(t.children, 0)
    } else {
        true
    }
}

/// Whether the entries of a directory from the index `from` on have proper
/// names and can be archived.
pub open spec fn packable_all(entries: Seq<Remote>, from: nat) -> bool
    decreases entries, entries.len() - from,
{
    from >= entries.len() || (proper_name(entries[from as int].name) && packable(
        entries[from as int],
    ) && packable_all(entries, from + 1))
}

/// The exchanges in which the rest of a file is read and archived: the
/// reads from the index `from` on, each followed by a write of what was
/// read and a report of the bytes moved so far, `moved` before the first;
/// then the read that finds the end of the file, and the closing.
pub open spec fn reading(chunks: Seq<Seq<u8>>, from: nat, moved: u64) -> Seq<Exchange>
    decreases chunks.len() - from,
{
    if from >= chunks.len() {
        seq![
            exchange(ActionModel::ReadRemote { limit: CHUNK_SIZE }, ReplyModel::Data(Seq::empty())),
            exchange(ActionModel::CloseRemote, ReplyModel::Done),
        ]
    } else {
        let n = chunks[from as int];
        let now = capped_sum(moved, n.len() as u64);
        seq![
            exchange(ActionModel::ReadRemote { limit: CHUNK_SIZE }, ReplyModel::Data(n)),
            exchange(ActionModel::WriteArchive { data: n }, ReplyModel::Done),
            exchange(
                ActionModel::Emit { topic: Topic::ZipProgress, value: now },
                ReplyModel::Done,
            ),
        ] + reading(chunks, from + 1, now)
    }
}

/// The exchanges in which the file `t` at `remote` is archived as `entry`.
pub open spec fn filing(remote: Seq<char>, entry: Seq<char>, t: Remote) -> Seq<Exchange> {
    seq![
        exchange(ActionModel::Stat { path: remote }, ReplyModel::Stat(t.stat)),
        exchange(
            ActionModel::Emit { topic: Topic::TotalSize, value: size_or_zero(t.stat) },
            ReplyModel::Done,
        ),
        exchange(ActionModel::OpenRemote { path: remote }, ReplyModel::Done),
        exchange(ActionModel::StartEntry { name: entry }, ReplyModel::Done),
    ] + reading(t.chunks, 0, 0)
}

/// The exchanges in which the entry `t` at `remote` is archived under the
/// name `entry`: a file as one entry; a directory by listing it and
/// archiving each of its entries under its name behind `entry`; anything
/// else not at all.
pub open spec fn packing(remote: Seq<char>, entry: Seq<char>, t: Remote) -> Seq<Exchange>
    decreases t, 0nat,
{
    if is_regular_file(t.stat) {
        filing(remote, entry, t)
    } else if is_directory(t.stat) {
        seq![
            exchange(
                ActionModel::ReadDir { path: remote },
                ReplyModel::Entries(listing(remote, t.children)),
            ),
            exchange(
                ActionModel::Emit {
                    topic: Topic::TotalSize,
                    value: entries_size(listing(remote, t.children)),
                },
                ReplyModel::Done,
            ),
        ] + packing_all(remote, entry, t.children, 0)
    } else {
        Seq::empty()
    }
}

/// The exchanges in which the entries of the directory at `remote` are
/// archived, from the index `from` on.
pub open spec fn packing_all(
    remote: Seq<char>,
    prefix: Seq<char>,
    entries: Seq<Remote>,
    from: nat,
) -> Seq<Exchange>
    decreases entries, entries.len() - from,
{
    if from >= entries.len() {
        Seq::empty()
    } else {
        let t = entries[from as int];
        packing(child(remote, t.name), child(prefix, t.name), t) + packing_all(
            remote,
            prefix,
            entries,
            from + 1,
        )
    }
}

/// The combined size of the requested items from the index `from` on, added
/// to `total`.
pub open spec fn combined_size(items: Seq<Remote>, from: nat, total: u64) -> u64
    decreases items.len() - from,
{
    if from >= items.len() {
        total
    } else {
        combined_size(items, from + 1, capped_sum(total, size_or_zero(items[from as int].stat)))
    }
}

/// The exchanges in which the requested items are examined for their size,
/// from the index `from` on, and the combined size announced.
pub open spec fn sizing(dir: Seq<char>, items: Seq<Remote>, from: nat, total: u64) -> Seq<
    Exchange,
>
    decreases items.len() - from,
{
    if from >= items.len() {
        seq![
            exchange(
                ActionModel::Emit { topic: Topic::TotalSize, value: total },
                ReplyModel::Done,
            ),
        ]
    } else {
        let t = items[from as int];
        seq![exchange(ActionModel::Stat { path: child(dir, t.name) }, ReplyModel::Stat(t.stat))]
            + sizing(dir, items, from + 1, capped_sum(total, size_or_zero(t.stat)))
    }
}

/// The exchanges in which the requested items are archived, from the index
/// `from` on: each is examined and then archived under its own name.
pub open spec fn requested(dir: Seq<char>, items: Seq<Remote>, from: nat) -> Seq<Exchange>
    decreases items.len() - from,
{
    if from >= items.len() {
        Seq::empty()
    } else {
        let t = items[from as int];
        seq![exchange(ActionModel::Stat { path: child(dir, t.name) }, ReplyModel::Stat(t.stat))]
            + packing(child(dir, t.name), t.name, t) + requested(dir, items, from + 1)
    }
}

/// The exchanges in which a place is found for the archive and the
/// archive moved there: the names are tried in turn, from the attempt
/// `from` on; each path of `taken` is found taken, and `local` is claimed,
/// to which the archive is moved; then the temporary storage is released.
pub open spec fn placing(digits: Seq<char>, taken: Seq<Seq<char>>, from: nat, local: Seq<char>) -> Seq<
    Exchange,
>
    decreases taken.len() - from,
{
    if from >= taken.len() {
        seq![
            exchange(
                ActionModel::LocateLocal { name: candidate(digits, from) },
                ReplyModel::Text(local),
            ),
            exchange(ActionModel::ClaimLocal { path: local }, ReplyModel::Flag(false)),
            exchange(ActionModel::MoveArchive { to: local }, ReplyModel::Done),
            exchange(ActionModel::DiscardTemp, ReplyModel::Done),
        ]
    } else {
        seq![
            exchange(
                ActionModel::LocateLocal { name: candidate(digits, from) },
                ReplyModel::Text(taken[from as int]),
            ),
            exchange(
                ActionModel::ClaimLocal { path: taken[from as int] },
                ReplyModel::Flag(true),
            ),
        ] + placing(digits, taken, from + 1, local)
    }
}

/// The exchanges in which the archive is completed at the time `secs`,
/// moved to the local path `local`, the first that is not taken, and the
/// temporary storage released. Where the time cannot be written as a date,
/// the storage is released at once.
pub open spec fn closing(secs: i64, taken: Seq<Seq<char>>, local: Seq<char>) -> Seq<Exchange> {
    seq![
        exchange(ActionModel::FinishArchive, ReplyModel::Done),
        exchange(ActionModel::ReadClock, ReplyModel::Stamp(secs)),
    ] + match utc_digits(secs) {
        Some(digits) => placing(digits, taken, 0, local),
        None => seq![exchange(ActionModel::DiscardTemp, ReplyModel::Done)],
    }
}

/// How an archive download ends that was completed at the time `secs` and
/// met no failure: in success, but in failure where the time cannot be
/// written as a date, so that the archive has no name.
pub open spec fn ending<M>(secs: i64) -> TurnModel<M> {
    match utc_digits(secs) {
        Some(_) => TurnModel::Finished(OutcomeModel::Done),
        None => TurnModel::Failed(Fault::NameArchive.failure(Seq::empty(), Seq::empty())),
    }
}

/// The exchanges of the download of `items` from `dir` as one archive.
pub open spec fn download(
    dir: Seq<char>,
    items: Seq<Remote>,
    secs: i64,
    taken: Seq<Seq<char>>,
    local: Seq<char>,
) -> Seq<Exchange> {
    seq![
        exchange(ActionModel::CreateTemp, ReplyModel::Done),
        exchange(ActionModel::CreateArchive, ReplyModel::Done),
    ] + sizing(dir, items, 0, 0) + requested(dir, items, 0) + closing(secs, taken, local)
}

/// How a download goes on does not depend on the stage that it is at.
proof fn lemma_seek_ignores_stage(a: ZipModel, b: ZipModel)
    requires
        a.at(ZipStage::Finishing) == b.at(ZipStage::Finishing),
    ensures
        a.seek() == b.seek(),
    decreases a.frames.len(),
{
    assert(a.dir == b.dir && a.names == b.names && a.item == b.item && a.total == b.total
        && a.frames == b.frames && a.remote == b.remote && a.entry == b.entry && a.moved
        == b.moved && a.failure == b.failure) by {
        let x = a.at(ZipStage::Finishing);
        let y = b.at(ZipStage::Finishing);
        assert(x.dir == y.dir && x.names == y.names && x.item == y.item && x.total == y.total
            && x.frames == y.frames && x.remote == y.remote && x.entry == y.entry && x.moved
            == y.moved && x.failure == y.failure);
    }
    assert(a.at(ZipStage::Classifying) == b.at(ZipStage::Classifying));
    if a.frames.len() > 0 {
        let top = a.frames.last();
        let stop = next_stop(top.entries, top.next);
        if stop >= top.entries.len() {
            let a1 = ZipModel { frames: a.frames.drop_last(), ..a }.past_current();
            let b1 = ZipModel { frames: b.frames.drop_last(), ..b }.past_current();
            assert(a1.at(ZipStage::Finishing) == b1.at(ZipStage::Finishing));
            lemma_seek_ignores_stage(a1, b1);
        }
    }
}

/// A download that reads a file whose reads give `chunks`, and stands
/// before the read `from`, plays the rest of the reading and goes on with
/// what follows the file.
proof fn lemma_plays_reading(m: ZipModel, chunks: Seq<Seq<u8>>, from: nat)
    requires
        m.stage == ZipStage::FileRead,
        from <= chunks.len(),
        within_buffer(chunks),
    ensures
        plays(
            stepper(),
            TurnModel::Perform(m, ActionModel::ReadRemote { limit: CHUNK_SIZE }),
            reading(chunks, from, m.moved),
            m.settled().past_current().seek(),
        ),
    decreases chunks.len() - from,
{
    let step = stepper();
    let read = ActionModel::ReadRemote { limit: CHUNK_SIZE };
    let end = m.settled().past_current().seek();
    if from >= chunks.len() {
        let closing = m.at(ZipStage::FileClose);
        assert(step(m, ReplyModel::Data(Seq::empty())) == TurnModel::Perform(
            closing,
            ActionModel::CloseRemote,
        ));
        assert(step(closing, ReplyModel::Done) == closing.settled().past_current().seek());
        assert(closing.settled().past_current().seek() == end) by {
            lemma_seek_ignores_stage(
                closing.settled().past_current(),
                m.settled().past_current(),
            );
        }
        assert(plays(step, end, Seq::empty(), end));
        lemma_plays_after(
            step,
            closing,
            ActionModel::CloseRemote,
            ReplyModel::Done,
            Seq::empty(),
            end,
        );
        let last = seq![exchange(ActionModel::CloseRemote, ReplyModel::Done)];
        assert(last + Seq::<Exchange>::empty() =~= last);
        lemma_plays_after(step, m, read, ReplyModel::Data(Seq::empty()), last, end);
        assert(reading(chunks, from, m.moved) =~= seq![exchange(read, ReplyModel::Data(Seq::empty()))]
            + last);
    } else {
        let n = chunks[from as int];
        let now = capped_sum(m.moved, n.len() as u64);
        let writing = ZipModel { stage: ZipStage::FileWrite, moved: now, ..m };
        let reporting = writing.at(ZipStage::FileReport);
        let onward = reporting.at(ZipStage::FileRead);
        let rest = reading(chunks, from + 1, now);
        assert(step(m, ReplyModel::Data(n)) == TurnModel::Perform(
            writing,
            ActionModel::WriteArchive { data: n },
        ));
        assert(step(writing, ReplyModel::Done) == TurnModel::Perform(
            reporting,
            ActionModel::Emit { topic: Topic::ZipProgress, value: now },
        ));
        assert(step(reporting, ReplyModel::Done) == TurnModel::Perform(onward, read));
        lemma_plays_reading(onward, chunks, from + 1);
        assert(onward.settled() == m.settled());
        lemma_plays_after(
            step,
            reporting,
            ActionModel::Emit { topic: Topic::ZipProgress, value: now },
            ReplyModel::Done,
            rest,
            end,
        );
        let tail1 = seq![
            exchange(
                ActionModel::Emit { topic: Topic::ZipProgress, value: now },
                ReplyModel::Done,
            ),
        ] + rest;
        lemma_plays_after(
            step,
            writing,
            ActionModel::WriteArchive { data: n },
            ReplyModel::Done,
            tail1,
            end,
        );
        let tail2 = seq![exchange(ActionModel::WriteArchive { data: n }, ReplyModel::Done)] + tail1;
        lemma_plays_after(step, m, read, ReplyModel::Data(n), tail2, end);
        assert(reading(chunks, from, m.moved) =~= seq![exchange(read, ReplyModel::Data(n))]
            + tail2);
    }
}

/// A download that starts on the readable file `t` plays its archiving and
/// goes on with what follows the file.
proof fn lemma_plays_filing(m: ZipModel, remote: Seq<char>, entry: Seq<char>, t: Remote)
    requires
        m.settled() == m,
        readable(t),
    ensures
        plays(
            stepper(),
            m.begin_file(remote, entry),
            filing(remote, entry, t),
            m.past_current().seek(),
        ),
{
    let step = stepper();
    let end = m.past_current().seek();
    let probing = ZipModel { stage: ZipStage::FileStat, remote, entry, moved: 0, ..m };
    let announcing = probing.at(ZipStage::FileAnnounce);
    let opening = probing.at(ZipStage::FileOpen);
    let starting = probing.at(ZipStage::FileStart);
    let reading_stage = probing.at(ZipStage::FileRead);
    let size = size_or_zero(t.stat);
    let rest = reading(t.chunks, 0, 0);
    assert(m.begin_file(remote, entry) == TurnModel::Perform(
        probing,
        ActionModel::Stat { path: remote },
    ));
    assert(step(probing, ReplyModel::Stat(t.stat)) == TurnModel::Perform(
        announcing,
        ActionModel::Emit { topic: Topic::TotalSize, value: size },
    ));
    assert(step(announcing, ReplyModel::Done) == TurnModel::Perform(
        opening,
        ActionModel::OpenRemote { path: remote },
    ));
    assert(step(opening, ReplyModel::Done) == TurnModel::Perform(
        starting,
        ActionModel::StartEntry { name: entry },
    ));
    assert(step(starting, ReplyModel::Done) == TurnModel::Perform(
        reading_stage,
        ActionModel::ReadRemote { limit: CHUNK_SIZE },
    ));
    lemma_plays_reading(reading_stage, t.chunks, 0);
    assert(reading_stage.settled().past_current().seek() == end) by {
        assert(reading_stage.settled() == m.at(ZipStage::FileRead));
        lemma_seek_ignores_stage(reading_stage.settled().past_current(), m.past_current());
    }
    lemma_plays_after(
        step,
        starting,
        ActionModel::StartEntry { name: entry },
        ReplyModel::Done,
        rest,
        end,
    );
    let tail1 = seq![exchange(ActionModel::StartEntry { name: entry }, ReplyModel::Done)] + rest;
    lemma_plays_after(
        step,
        opening,
        ActionModel::OpenRemote { path: remote },
        ReplyModel::Done,
        tail1,
        end,
    );
    let tail2 = seq![exchange(ActionModel::OpenRemote { path: remote }, ReplyModel::Done)] + tail1;
    lemma_plays_after(
        step,
        announcing,
        ActionModel::Emit { topic: Topic::TotalSize, value: size },
        ReplyModel::Done,
        tail2,
        end,
    );
    let tail3 = seq![
        exchange(ActionModel::Emit { topic: Topic::TotalSize, value: size }, ReplyModel::Done),
    ] + tail2;
    lemma_plays_after(
        step,
        probing,
        ActionModel::Stat { path: remote },
        ReplyModel::Stat(t.stat),
        tail3,
        end,
    );
    assert(filing(remote, entry, t) =~= seq![
        exchange(ActionModel::Stat { path: remote }, ReplyModel::Stat(t.stat)),
    ] + tail3);
}

/// The turn with which a download takes up an entry with the attributes
/// `stat`: it starts on a file or on a directory, and passes by anything
/// else.
pub open spec fn taking_up(m: ZipModel, remote: Seq<char>, entry: Seq<char>, stat: RemoteStat) -> TurnModel<
    ZipModel,
> {
    if is_regular_file(stat) {
        m.begin_file(remote, entry)
    } else if is_directory(stat) {
        m.begin_dir(remote, entry)
    } else {
        m.past_current().seek()
    }
}

/// A download that takes up the entry `t` plays its archiving and goes on
/// with what follows the entry.
proof fn lemma_plays_packing(m: ZipModel, remote: Seq<char>, entry: Seq<char>, t: Remote)
    requires
        m.settled() == m,
        packable(t),
    ensures
        plays(
            stepper(),
            taking_up(m, remote, entry, t.stat),
            packing(remote, entry, t),
            m.past_current().seek(),
        ),
    decreases t, 0nat,
{
    let step = stepper();
    let end = m.past_current().seek();
    if is_regular_file(t.stat) {
        lemma_plays_filing(m, remote, entry, t);
    } else if is_directory(t.stat) {
        let entries = listing(remote, t.children);
        let size = entries_size(entries);
        let listing_stage = ZipModel { stage: ZipStage::DirList, remote, entry, ..m };
        let frame = FrameModel { remote, prefix: entry, entries, next: 0 };
        let inside = ZipModel {
            stage: ZipStage::DirAnnounce,
            frames: m.frames.push(frame),
            ..listing_stage.settled()
        };
        let inner = packing_all(remote, entry, t.children, 0);
        assert(m.begin_dir(remote, entry) == TurnModel::Perform(
            listing_stage,
            ActionModel::ReadDir { path: remote },
        ));
        assert(step(listing_stage, ReplyModel::Entries(entries)) == TurnModel::Perform(
            inside,
            ActionModel::Emit { topic: Topic::TotalSize, value: size },
        ));
        assert(step(inside, ReplyModel::Done) == inside.seek());
        assert(inside.frames.last() == frame);
        lemma_plays_packing_all(inside, t.children, 0);
        let around = ZipModel { frames: inside.frames.drop_last(), ..inside };
        assert(around.past_current().seek() == end) by {
            assert(inside.frames.drop_last() =~= m.frames);
            assert(around == m.at(ZipStage::DirAnnounce));
            lemma_seek_ignores_stage(around.past_current(), m.past_current());
        }
        lemma_plays_after(
            step,
            inside,
            ActionModel::Emit { topic: Topic::TotalSize, value: size },
            ReplyModel::Done,
            inner,
            end,
        );
        let tail = seq![
            exchange(ActionModel::Emit { topic: Topic::TotalSize, value: size }, ReplyModel::Done),
        ] + inner;
        lemma_plays_after(
            step,
            listing_stage,
            ActionModel::ReadDir { path: remote },
            ReplyModel::Entries(entries),
            tail,
            end,
        );
        assert(packing(remote, entry, t) =~= seq![
            exchange(ActionModel::ReadDir { path: remote }, ReplyModel::Entries(entries)),
        ] + tail);
    } else {
    }
}

/// A download inside a directory whose entries the host holds as `entries`,
/// about to go on at the entry `from`, plays the archiving of what is left
/// of them and goes on with what follows the directory.
proof fn lemma_plays_packing_all(m: ZipModel, entries: Seq<Remote>, from: nat)
    requires
        m.settled() == m,
        m.frames.len() > 0,
        m.frames.last().entries == listing(m.frames.last().remote, entries),
        m.frames.last().next == from,
        from <= entries.len(),
        packable_all(entries, from),
    ensures
        plays(
            stepper(),
            m.seek(),
            packing_all(m.frames.last().remote, m.frames.last().prefix, entries, from),
            ZipModel { frames: m.frames.drop_last(), ..m }.past_current().seek(),
        ),
    decreases entries, entries.len() - from,
{
    let step = stepper();
    let top = m.frames.last();
    let end = ZipModel { frames: m.frames.drop_last(), ..m }.past_current().seek();
    if from >= entries.len() {
        assert(next_stop(top.entries, from) == top.entries.len());
    } else {
        let t = entries[from as int];
        let found = top.entries[from as int];
        let remote = child(top.remote, t.name);
        let entry = child(top.prefix, t.name);
        lemma_file_name_of_child(top.remote, t.name);
        assert(found.path == remote && found.stat == t.stat);
        let onward = m.past_current();
        assert(onward.frames.last() == FrameModel { next: from + 1, ..top });
        assert(onward.frames.drop_last() =~= m.frames.drop_last());
        assert(ZipModel { frames: onward.frames.drop_last(), ..onward } == ZipModel {
            frames: m.frames.drop_last(),
            ..m
        });
        lemma_plays_packing_all(onward, entries, from + 1);
        if stops_at(found) {
            assert(next_stop(top.entries, from) == from);
            assert(m.frames.drop_last().push(FrameModel { next: from, ..top }) =~= m.frames);
            assert(m.seek() == taking_up(m, remote, entry, t.stat));
            lemma_plays_packing(m, remote, entry, t);
            lemma_plays_in_a_row(
                step,
                m.seek(),
                packing(remote, entry, t),
                onward.seek(),
                packing_all(top.remote, top.prefix, entries, from + 1),
                end,
            );
        } else {
            assert(next_stop(top.entries, from) == next_stop(top.entries, from + 1));
            let stop = next_stop(top.entries, from);
            assert(onward.frames.drop_last().push(
                FrameModel { next: stop, ..onward.frames.last() },
            ) =~= m.frames.drop_last().push(FrameModel { next: stop, ..top }));
            assert(m.seek() == onward.seek());
            assert(packing(remote, entry, t) =~= Seq::<Exchange>::empty());
            assert(packing_all(top.remote, top.prefix, entries, from) =~= packing_all(
                top.remote,
                top.prefix,
                entries,
                from + 1,
            ));
        }
    }
}

/// A download outside of all directories, about to go on at the requested
/// item `from`, plays the archiving of what is left of the items and goes
/// on to complete the archive.
proof fn lemma_plays_requested(m: ZipModel, items: Seq<Remote>, from: nat)
    requires
        m.settled() == m,
        m.frames.len() == 0,
        m.names == names_of(items),
        m.item == from,
        from <= items.len(),
        forall|i: int| 0 <= i < items.len() ==> packable(#[trigger] items[i]),
    ensures
        plays(
            stepper(),
            m.seek(),
            requested(m.dir, items, from),
            TurnModel::Perform(
                ZipModel { item: items.len(), ..m }.at(ZipStage::Finishing),
                ActionModel::FinishArchive,
            ),
        ),
    decreases items.len() - from,
{
    let step = stepper();
    let end = TurnModel::Perform(
        ZipModel { item: items.len(), ..m }.at(ZipStage::Finishing),
        ActionModel::FinishArchive,
    );
    if from < items.len() {
        let t = items[from as int];
        let remote = child(m.dir, t.name);
        let classifying = m.at(ZipStage::Classifying);
        let onward = classifying.past_current();
        assert(m.seek() == TurnModel::Perform(classifying, ActionModel::Stat { path: remote }));
        assert(step(classifying, ReplyModel::Stat(t.stat)) == taking_up(
            classifying,
            remote,
            t.name,
            t.stat,
        ));
        lemma_plays_packing(classifying, remote, t.name, t);
        lemma_plays_requested(onward, items, from + 1);
        assert(ZipModel { item: items.len(), ..onward }.at(ZipStage::Finishing) == ZipModel {
            item: items.len(),
            ..m
        }.at(ZipStage::Finishing));
        lemma_plays_in_a_row(
            step,
            taking_up(classifying, remote, t.name, t.stat),
            packing(remote, t.name, t),
            onward.seek(),
            requested(m.dir, items, from + 1),
            end,
        );
        lemma_plays_after(
            step,
            classifying,
            ActionModel::Stat { path: remote },
            ReplyModel::Stat(t.stat),
            packing(remote, t.name, t) + requested(m.dir, items, from + 1),
            end,
        );
        assert(requested(m.dir, items, from) =~= seq![
            exchange(ActionModel::Stat { path: remote }, ReplyModel::Stat(t.stat)),
        ] + (packing(remote, t.name, t) + requested(m.dir, items, from + 1)));
    } else {
        assert(ZipModel { item: items.len(), ..m } == m);
    }
}

/// A download about to examine the requested item `from` for its size
/// plays the sizing of what is left of the items and goes on to archive
/// the first.
proof fn lemma_plays_sizing(m: ZipModel, items: Seq<Remote>, from: nat)
    requires
        m.names == names_of(items),
        m.item == from,
        from <= items.len(),
    ensures
        plays(
            stepper(),
            m.size_next(),
            sizing(m.dir, items, from, m.total),
            ZipModel { item: 0, total: combined_size(items, from, m.total), ..m }.seek(),
        ),
    decreases items.len() - from,
{
    let step = stepper();
    let end = ZipModel { item: 0, total: combined_size(items, from, m.total), ..m }.seek();
    if from < items.len() {
        let t = items[from as int];
        let path = child(m.dir, t.name);
        let sizing_stage = m.at(ZipStage::Sizing);
        let onward = ZipModel {
            item: from + 1,
            total: capped_sum(m.total, size_or_zero(t.stat)),
            ..sizing_stage
        };
        assert(m.size_next() == TurnModel::Perform(sizing_stage, ActionModel::Stat { path }));
        assert(step(sizing_stage, ReplyModel::Stat(t.stat)) == onward.size_next());
        lemma_plays_sizing(onward, items, from + 1);
        assert(ZipModel {
            item: 0,
            total: combined_size(items, from + 1, onward.total),
            ..onward
        }.seek() == end) by {
            lemma_seek_ignores_stage(
                ZipModel {
                    item: 0,
                    total: combined_size(items, from + 1, onward.total),
                    ..onward
                },
                ZipModel { item: 0, total: combined_size(items, from, m.total), ..m },
            );
        }
        lemma_plays_after(
            step,
            sizing_stage,
            ActionModel::Stat { path },
            ReplyModel::Stat(t.stat),
            sizing(m.dir, items, from + 1, onward.total),
            end,
        );
    } else {
        let announcing = m.at(ZipStage::Announcing);
        assert(m.size_next() == TurnModel::Perform(
            announcing,
            ActionModel::Emit { topic: Topic::TotalSize, value: m.total },
        ));
        assert(step(announcing, ReplyModel::Done) == ZipModel { item: 0, ..announcing }.seek());
        assert(ZipModel { item: 0, ..announcing }.seek() == end) by {
            lemma_seek_ignores_stage(
                ZipModel { item: 0, ..announcing },
                ZipModel { item: 0, total: combined_size(items, from, m.total), ..m },
            );
        }
        assert(plays(step, end, Seq::empty(), end));
        lemma_plays_after(
            step,
            announcing,
            ActionModel::Emit { topic: Topic::TotalSize, value: m.total },
            ReplyModel::Done,
            Seq::empty(),
            end,
        );
        let last = seq![
            exchange(
                ActionModel::Emit { topic: Topic::TotalSize, value: m.total },
                ReplyModel::Done,
            ),
        ];
        assert(last + Seq::<Exchange>::empty() =~= last);
    }
}

/// A download that looks up the place of the name of the attempt `from`
/// plays the placing and succeeds.
proof fn lemma_plays_placing(m: ZipModel, taken: Seq<Seq<char>>, from: nat, local: Seq<char>)
    requires
        m.stage == ZipStage::Locating,
        m.attempt == from,
        from <= taken.len() <= u64::MAX,
    ensures
        plays(
            stepper(),
            TurnModel::Perform(
                m,
                ActionModel::LocateLocal { name: candidate(m.stamp, from) },
            ),
            placing(m.stamp, taken, from, local),
            TurnModel::Finished(OutcomeModel::Done),
        ),
    decreases taken.len() - from,
{
    let step = stepper();
    let end = TurnModel::<ZipModel>::Finished(OutcomeModel::Done);
    let locate = ActionModel::LocateLocal { name: candidate(m.stamp, from) };
    if from >= taken.len() {
        let probing = ZipModel { stage: ZipStage::Claiming, local, ..m };
        let moving = probing.at(ZipStage::Moving);
        let discarding = probing.at(ZipStage::Discarding);
        let e2 = ActionModel::ClaimLocal { path: local };
        let e3 = ActionModel::MoveArchive { to: local };
        let e4 = ActionModel::DiscardTemp;
        assert(step(m, ReplyModel::Text(local)) == TurnModel::Perform(probing, e2));
        assert(step(probing, ReplyModel::Flag(false)) == TurnModel::Perform(moving, e3));
        assert(step(moving, ReplyModel::Done) == TurnModel::Perform(discarding, e4));
        assert(step(discarding, ReplyModel::Done) == end);
        assert(plays(step, end, Seq::empty(), end));
        lemma_plays_after(step, discarding, e4, ReplyModel::Done, Seq::empty(), end);
        let tail1 = seq![exchange(e4, ReplyModel::Done)];
        assert(tail1 + Seq::<Exchange>::empty() =~= tail1);
        lemma_plays_after(step, moving, e3, ReplyModel::Done, tail1, end);
        let tail2 = seq![exchange(e3, ReplyModel::Done)] + tail1;
        lemma_plays_after(step, probing, e2, ReplyModel::Flag(false), tail2, end);
        let tail3 = seq![exchange(e2, ReplyModel::Flag(false))] + tail2;
        lemma_plays_after(step, m, locate, ReplyModel::Text(local), tail3, end);
        assert(placing(m.stamp, taken, from, local) =~= seq![
            exchange(locate, ReplyModel::Text(local)),
        ] + tail3);
    } else {
        let path = taken[from as int];
        let probing = ZipModel { stage: ZipStage::Claiming, local: path, ..m };
        let onward = ZipModel { attempt: (from + 1) as u64, ..probing }.at(ZipStage::Locating);
        let e2 = ActionModel::ClaimLocal { path };
        let rest = placing(m.stamp, taken, from + 1, local);
        assert(step(m, ReplyModel::Text(path)) == TurnModel::Perform(probing, e2));
        assert(step(probing, ReplyModel::Flag(true)) == TurnModel::Perform(
            onward,
            ActionModel::LocateLocal { name: candidate(m.stamp, from + 1) },
        ));
        lemma_plays_placing(onward, taken, from + 1, local);
        lemma_plays_after(step, probing, e2, ReplyModel::Flag(true), rest, end);
        let tail = seq![exchange(e2, ReplyModel::Flag(true))] + rest;
        lemma_plays_after(step, m, locate, ReplyModel::Text(path), tail, end);
        assert(placing(m.stamp, taken, from, local) =~= seq![
            exchange(locate, ReplyModel::Text(path)),
        ] + tail);
    }
}

/// A download about to complete the archive plays the closing and comes
/// to its end.
proof fn lemma_plays_closing(m: ZipModel, secs: i64, taken: Seq<Seq<char>>, local: Seq<char>)
    requires
        m.stage == ZipStage::Finishing,
        taken.len() <= u64::MAX,
    ensures
        plays(
            stepper(),
            TurnModel::Perform(m, ActionModel::FinishArchive),
            closing(secs, taken, local),
            ending(secs),
        ),
{
    let step = stepper();
    let end = ending::<ZipModel>(secs);
    let timing = m.at(ZipStage::Timing);
    assert(step(m, ReplyModel::Done) == TurnModel::Perform(timing, ActionModel::ReadClock));
    match utc_digits(secs) {
        Some(stamp) => {
            let locating = ZipModel { stamp, attempt: 0, ..timing }.at(ZipStage::Locating);
            let rest = placing(stamp, taken, 0, local);
            assert(step(timing, ReplyModel::Stamp(secs)) == TurnModel::Perform(
                locating,
                ActionModel::LocateLocal { name: candidate(stamp, 0) },
            ));
            lemma_plays_placing(locating, taken, 0, local);
            lemma_plays_after(
                step,
                timing,
                ActionModel::ReadClock,
                ReplyModel::Stamp(secs),
                rest,
                end,
            );
            let tail = seq![exchange(ActionModel::ReadClock, ReplyModel::Stamp(secs))] + rest;
            lemma_plays_after(step, m, ActionModel::FinishArchive, ReplyModel::Done, tail, end);
            assert(closing(secs, taken, local) =~= seq![
                exchange(ActionModel::FinishArchive, ReplyModel::Done),
            ] + tail);
        },
        None => {
            let failure = Fault::NameArchive.failure(Seq::empty(), Seq::empty());
            let abandoning = ZipModel {
                stage: ZipStage::Abandoning,
                failure: Some(failure),
                ..timing
            };
            let release = seq![exchange(ActionModel::DiscardTemp, ReplyModel::Done)];
            assert(step(timing, ReplyModel::Stamp(secs)) == TurnModel::Perform(
                abandoning,
                ActionModel::DiscardTemp,
            ));
            assert(step(abandoning, ReplyModel::Done) == end);
            assert(plays(step, end, Seq::empty(), end));
            lemma_plays_after(
                step,
                abandoning,
                ActionModel::DiscardTemp,
                ReplyModel::Done,
                Seq::empty(),
                end,
            );
            assert(release + Seq::<Exchange>::empty() =~= release);
            lemma_plays_after(
                step,
                timing,
                ActionModel::ReadClock,
                ReplyModel::Stamp(secs),
                release,
                end,
            );
            let tail = seq![exchange(ActionModel::ReadClock, ReplyModel::Stamp(secs))] + release;
            lemma_plays_after(step, m, ActionModel::FinishArchive, ReplyModel::Done, tail, end);
            assert(closing(secs, taken, local) =~= seq![
                exchange(ActionModel::FinishArchive, ReplyModel::Done),
            ] + tail);
        },
    }
}

/// An archive download runs as [`download`] says. Where the host holds
/// `items` in `dir`, each of which can be archived, and every action is
/// answered as that content demands and succeeds, the download of their
/// names performs the exchanges of [`download`], moves the archive to the
/// first place that is not taken, and then succeeds; but where the time
/// cannot be written as a date, it releases the storage and fails.
pub proof fn lemma_download_plays(
    dir: Seq<char>,
    items: Seq<Remote>,
    secs: i64,
    taken: Seq<Seq<char>>,
    local: Seq<char>,
)
    requires
        forall|i: int| 0 <= i < items.len() ==> packable(#[trigger] items[i]),
        taken.len() <= u64::MAX,
    ensures
        plays(
            stepper(),
            ZipModel::start(dir, names_of(items)),
            download(dir, items, secs, taken, local),
            ending(secs),
        ),
{
    let step = stepper();
    let end = ending::<ZipModel>(secs);
    let initial = ZipModel::initial(dir, names_of(items));
    let creating = initial.at(ZipStage::CreatingArchive);
    let counting = ZipModel { item: 0, total: 0, ..creating };
    let archiving = ZipModel { item: 0, total: combined_size(items, 0, 0), ..counting };
    let finishing = ZipModel { item: items.len(), ..archiving }.at(ZipStage::Finishing);
    assert(step(initial, ReplyModel::Done) == TurnModel::Perform(
        creating,
        ActionModel::CreateArchive,
    ));
    assert(step(creating, ReplyModel::Done) == counting.size_next());
    lemma_plays_sizing(counting, items, 0);
    lemma_plays_requested(archiving, items, 0);
    lemma_plays_closing(finishing, secs, taken, local);
    lemma_plays_in_a_row(
        step,
        archiving.seek(),
        requested(dir, items, 0),
        TurnModel::Perform(finishing, ActionModel::FinishArchive),
        closing(secs, taken, local),
        end,
    );
    lemma_plays_in_a_row(
        step,
        counting.size_next(),
        sizing(dir, items, 0, 0),
        archiving.seek(),
        requested(dir, items, 0) + closing(secs, taken, local),
        end,
    );
    let tail1 = sizing(dir, items, 0, 0) + (requested(dir, items, 0) + closing(secs, taken, local));
    lemma_plays_after(step, creating, ActionModel::CreateArchive, ReplyModel::Done, tail1, end);
    let tail2 = seq![exchange(ActionModel::CreateArchive, ReplyModel::Done)] + tail1;
    lemma_plays_after(step, initial, ActionModel::CreateTemp, ReplyModel::Done, tail2, end);
    assert(download(dir, items, secs, taken, local) =~= seq![
        exchange(ActionModel::CreateTemp, ReplyModel::Done),
    ] + tail2);
}

/// An entry of an archive: its name and the bytes written to it.
pub struct Packed {
    pub name: Seq<char>,
    pub bytes: Seq<u8>,
}

/// The entries of an archive that holds `entries` after `action`: a started
/// entry comes behind them, empty; what is written goes to the last.
pub open spec fn packed_after(entries: Seq<Packed>, action: ActionModel) -> Seq<Packed> {
    match action {
        ActionModel::StartEntry { name } => entries.push(Packed { name, bytes: Seq::empty() }),
        ActionModel::WriteArchive { data } => if entries.len() > 0 {
            entries.drop_last().push(
                Packed { bytes: entries.last().bytes + data, ..entries.last() },
            )
        } else {
            entries
        },
        _ => entries,
    }
}

/// The entries of an archive that holds `entries` after the actions of
/// `script`.
pub open spec fn archived(entries: Seq<Packed>, script: Seq<Exchange>) -> Seq<Packed>
    decreases script.len(),
{
    if script.len() == 0 {
        entries
    } else {
        archived(packed_after(entries, script[0].action), script.drop_first())
    }
}

/// The entries that the archive gets for the entry `t` under the name
/// `entry`: one for a file, with the bytes that the host handed out; for a
/// directory those of its entries, each under its name behind `entry`; none
/// for anything else.
pub open spec fn packed(entry: Seq<char>, t: Remote) -> Seq<Packed>
    decreases t, 0nat,
{
    if is_regular_file(t.stat) {
        seq![Packed { name: entry, bytes: content(t.chunks, 0) }]
    } else if is_directory(t.stat) {
        packed_all(entry, t.children, 0)
    } else {
        Seq::empty()
    }
}

/// The entries that the archive gets for the entries of a directory from
/// the index `from` on.
pub open spec fn packed_all(prefix: Seq<char>, entries: Seq<Remote>, from: nat) -> Seq<Packed>
    decreases entries, entries.len() - from,
{
    if from >= entries.len() {
        Seq::empty()
    } else {
        let t = entries[from as int];
        packed(child(prefix, t.name), t) + packed_all(prefix, entries, from + 1)
    }
}

/// The entries that the archive gets for the requested items from the
/// index `from` on, each under its own name.
pub open spec fn packed_items(items: Seq<Remote>, from: nat) -> Seq<Packed>
    decreases items.len() - from,
{
    if from >= items.len() {
        Seq::empty()
    } else {
        packed(items[from as int].name, items[from as int]) + packed_items(items, from + 1)
    }
}

/// What two scripts in a row make of an archive is what the second makes
/// of what the first made.
proof fn lemma_archived_in_a_row(entries: Seq<Packed>, a: Seq<Exchange>, b: Seq<Exchange>)
    ensures
        archived(entries, a + b) == archived(archived(entries, a), b),
    decreases a.len(),
{
    if a.len() == 0 {
        assert(a + b =~= b);
    } else {
        assert((a + b)[0] == a[0]);
        assert((a + b).drop_first() =~= a.drop_first() + b);
        lemma_archived_in_a_row(packed_after(entries, a[0].action), a.drop_first(), b);
    }
}

/// What one exchange makes of an archive.
proof fn lemma_archived_one(entries: Seq<Packed>, e: Exchange)
    ensures
        archived(entries, seq![e]) == packed_after(entries, e.action),
{
    let s = seq![e];
    assert(s[0] == e);
    assert(s.drop_first() =~= Seq::<Exchange>::empty());
    assert(archived(packed_after(entries, e.action), s.drop_first()) == packed_after(
        entries,
        e.action,
    ));
}

/// What one exchange and then a script make of an archive.
proof fn lemma_archived_after(entries: Seq<Packed>, e: Exchange, rest: Seq<Exchange>)
    ensures
        archived(entries, seq![e] + rest) == archived(packed_after(entries, e.action), rest),
{
    lemma_archived_in_a_row(entries, seq![e], rest);
    lemma_archived_one(entries, e);
}

/// The reading of a file puts what the host hands out into the entry that
/// was started last.
proof fn lemma_reading_fills_entry(
    entries: Seq<Packed>,
    name: Seq<char>,
    bytes: Seq<u8>,
    chunks: Seq<Seq<u8>>,
    from: nat,
    moved: u64,
)
    ensures
        archived(entries.push(Packed { name, bytes }), reading(chunks, from, moved))
            == entries.push(Packed { name, bytes: bytes + content(chunks, from) }),
    decreases chunks.len() - from,
{
    let open = entries.push(Packed { name, bytes });
    let read = ActionModel::ReadRemote { limit: CHUNK_SIZE };
    if from >= chunks.len() {
        let end = exchange(read, ReplyModel::Data(Seq::empty()));
        let close = exchange(ActionModel::CloseRemote, ReplyModel::Done);
        assert(reading(chunks, from, moved) =~= seq![end] + seq![close]);
        lemma_archived_after(open, end, seq![close]);
        lemma_archived_one(open, close);
        assert(bytes + content(chunks, from) =~= bytes);
    } else {
        let n = chunks[from as int];
        let now = capped_sum(moved, n.len() as u64);
        let rest = reading(chunks, from + 1, now);
        let first = exchange(read, ReplyModel::Data(n));
        let report = exchange(
            ActionModel::Emit { topic: Topic::ZipProgress, value: now },
            ReplyModel::Done,
        );
        let write = exchange(ActionModel::WriteArchive { data: n }, ReplyModel::Done);
        let tail1 = seq![report] + rest;
        let tail2 = seq![write] + tail1;
        assert(reading(chunks, from, moved) =~= seq![first] + tail2);
        lemma_archived_after(open, first, tail2);
        assert(packed_after(open, first.action) == open);
        lemma_archived_after(open, write, tail1);
        let grown = entries.push(Packed { name, bytes: bytes + n });
        assert(open.drop_last() =~= entries);
        assert(open.last() == Packed { name, bytes });
        assert(packed_after(open, write.action) == grown);
        lemma_archived_after(grown, report, rest);
        assert(packed_after(grown, report.action) == grown);
        lemma_reading_fills_entry(entries, name, bytes + n, chunks, from + 1, now);
        assert((bytes + n) + content(chunks, from + 1) =~= bytes + content(chunks, from));
    }
}

/// The archiving of a file adds one entry, with what the host hands out.
proof fn lemma_filing_adds_entry(
    entries: Seq<Packed>,
    remote: Seq<char>,
    entry: Seq<char>,
    t: Remote,
)
    ensures
        archived(entries, filing(remote, entry, t)) == entries.push(
            Packed { name: entry, bytes: content(t.chunks, 0) },
        ),
{
    let probe = exchange(ActionModel::Stat { path: remote }, ReplyModel::Stat(t.stat));
    let announce = exchange(
        ActionModel::Emit { topic: Topic::TotalSize, value: size_or_zero(t.stat) },
        ReplyModel::Done,
    );
    let open = exchange(ActionModel::OpenRemote { path: remote }, ReplyModel::Done);
    let start = exchange(ActionModel::StartEntry { name: entry }, ReplyModel::Done);
    let rest = reading(t.chunks, 0, 0);
    let tail1 = seq![start] + rest;
    let tail2 = seq![open] + tail1;
    let tail3 = seq![announce] + tail2;
    assert(filing(remote, entry, t) =~= seq![probe] + tail3);
    lemma_archived_after(entries, probe, tail3);
    lemma_archived_after(entries, announce, tail2);
    lemma_archived_after(entries, open, tail1);
    lemma_archived_after(entries, start, rest);
    lemma_reading_fills_entry(entries, entry, Seq::empty(), t.chunks, 0, 0);
    assert(Seq::<u8>::empty() + content(t.chunks, 0) =~= content(t.chunks, 0));
}

/// The archiving of an entry adds the entries of [`packed`].
proof fn lemma_packing_adds_entries(
    entries: Seq<Packed>,
    remote: Seq<char>,
    entry: Seq<char>,
    t: Remote,
)
    ensures
        archived(entries, packing(remote, entry, t)) == entries + packed(entry, t),
    decreases t, 0nat,
{
    if is_regular_file(t.stat) {
        lemma_filing_adds_entry(entries, remote, entry, t);
        assert(entries.push(Packed { name: entry, bytes: content(t.chunks, 0) }) =~= entries
            + packed(entry, t));
    } else if is_directory(t.stat) {
        let list = exchange(
            ActionModel::ReadDir { path: remote },
            ReplyModel::Entries(listing(remote, t.children)),
        );
        let announce = exchange(
            ActionModel::Emit {
                topic: Topic::TotalSize,
                value: entries_size(listing(remote, t.children)),
            },
            ReplyModel::Done,
        );
        let inner = packing_all(remote, entry, t.children, 0);
        assert(packing(remote, entry, t) =~= seq![list] + (seq![announce] + inner));
        lemma_archived_after(entries, list, seq![announce] + inner);
        lemma_archived_after(entries, announce, inner);
        lemma_packing_all_adds_entries(entries, remote, entry, t.children, 0);
    } else {
        assert(entries + packed(entry, t) =~= entries);
    }
}

/// The archiving of the entries of a directory adds the entries of
/// [`packed_all`].
proof fn lemma_packing_all_adds_entries(
    entries: Seq<Packed>,
    remote: Seq<char>,
    prefix: Seq<char>,
    children: Seq<Remote>,
    from: nat,
)
    ensures
        archived(entries, packing_all(remote, prefix, children, from)) == entries + packed_all(
            prefix,
            children,
            from,
        ),
    decreases children, children.len() - from,
{
    if from >= children.len() {
        assert(entries + packed_all(prefix, children, from) =~= entries);
    } else {
        let t = children[from as int];
        let first = packing(child(remote, t.name), child(prefix, t.name), t);
        let rest = packing_all(remote, prefix, children, from + 1);
        lemma_archived_in_a_row(entries, first, rest);
        lemma_packing_adds_entries(entries, child(remote, t.name), child(prefix, t.name), t);
        let grown = entries + packed(child(prefix, t.name), t);
        lemma_packing_all_adds_entries(grown, remote, prefix, children, from + 1);
        assert(grown + packed_all(prefix, children, from + 1) =~= entries + packed_all(
            prefix,
            children,
            from,
        ));
    }
}

/// The sizing adds nothing to the archive.
proof fn lemma_sizing_adds_nothing(
    entries: Seq<Packed>,
    dir: Seq<char>,
    items: Seq<Remote>,
    from: nat,
    total: u64,
)
    ensures
        archived(entries, sizing(dir, items, from, total)) == entries,
    decreases items.len() - from,
{
    if from >= items.len() {
        lemma_archived_one(
            entries,
            exchange(
                ActionModel::Emit { topic: Topic::TotalSize, value: total },
                ReplyModel::Done,
            ),
        );
    } else {
        let t = items[from as int];
        let rest = sizing(dir, items, from + 1, capped_sum(total, size_or_zero(t.stat)));
        lemma_archived_after(
            entries,
            exchange(ActionModel::Stat { path: child(dir, t.name) }, ReplyModel::Stat(t.stat)),
            rest,
        );
        lemma_sizing_adds_nothing(
            entries,
            dir,
            items,
            from + 1,
            capped_sum(total, size_or_zero(t.stat)),
        );
    }
}

/// The archiving of the requested items adds the entries of
/// [`packed_items`].
proof fn lemma_requested_adds_entries(
    entries: Seq<Packed>,
    dir: Seq<char>,
    items: Seq<Remote>,
    from: nat,
)
    ensures
        archived(entries, requested(dir, items, from)) == entries + packed_items(items, from),
    decreases items.len() - from,
{
    if from >= items.len() {
        assert(entries + packed_items(items, from) =~= entries);
    } else {
        let t = items[from as int];
        let probe = exchange(
            ActionModel::Stat { path: child(dir, t.name) },
            ReplyModel::Stat(t.stat),
        );
        let first = packing(child(dir, t.name), t.name, t);
        let rest = requested(dir, items, from + 1);
        assert(requested(dir, items, from) =~= seq![probe] + (first + rest));
        lemma_archived_after(entries, probe, first + rest);
        lemma_archived_in_a_row(entries, first, rest);
        lemma_packing_adds_entries(entries, child(dir, t.name), t.name, t);
        let grown = entries + packed(t.name, t);
        lemma_requested_adds_entries(grown, dir, items, from + 1);
        assert(grown + packed_items(items, from + 1) =~= entries + packed_items(items, from));
    }
}

/// The placing adds nothing to the archive.
proof fn lemma_placing_adds_nothing(
    entries: Seq<Packed>,
    digits: Seq<char>,
    taken: Seq<Seq<char>>,
    from: nat,
    local: Seq<char>,
)
    ensures
        archived(entries, placing(digits, taken, from, local)) == entries,
    decreases taken.len() - from,
{
    let locate = ActionModel::LocateLocal { name: candidate(digits, from) };
    if from >= taken.len() {
        let e1 = exchange(locate, ReplyModel::Text(local));
        let e2 = exchange(ActionModel::ClaimLocal { path: local }, ReplyModel::Flag(false));
        let e3 = exchange(ActionModel::MoveArchive { to: local }, ReplyModel::Done);
        let e4 = exchange(ActionModel::DiscardTemp, ReplyModel::Done);
        let tail1 = seq![e4];
        let tail2 = seq![e3] + tail1;
        let tail3 = seq![e2] + tail2;
        assert(placing(digits, taken, from, local) =~= seq![e1] + tail3);
        lemma_archived_after(entries, e1, tail3);
        lemma_archived_after(entries, e2, tail2);
        lemma_archived_after(entries, e3, tail1);
        lemma_archived_one(entries, e4);
    } else {
        let e1 = exchange(locate, ReplyModel::Text(taken[from as int]));
        let e2 = exchange(
            ActionModel::ClaimLocal { path: taken[from as int] },
            ReplyModel::Flag(true),
        );
        let rest = placing(digits, taken, from + 1, local);
        assert(placing(digits, taken, from, local) =~= seq![e1] + (seq![e2] + rest));
        lemma_archived_after(entries, e1, seq![e2] + rest);
        lemma_archived_after(entries, e2, rest);
        lemma_placing_adds_nothing(entries, digits, taken, from + 1, local);
    }
}

/// The closing adds nothing to the archive.
proof fn lemma_closing_adds_nothing(
    entries: Seq<Packed>,
    secs: i64,
    taken: Seq<Seq<char>>,
    local: Seq<char>,
)
    ensures
        archived(entries, closing(secs, taken, local)) == entries,
{
    let e1 = exchange(ActionModel::FinishArchive, ReplyModel::Done);
    let e2 = exchange(ActionModel::ReadClock, ReplyModel::Stamp(secs));
    let rest = match utc_digits(secs) {
        Some(digits) => placing(digits, taken, 0, local),
        None => seq![exchange(ActionModel::DiscardTemp, ReplyModel::Done)],
    };
    assert(closing(secs, taken, local) =~= seq![e1] + (seq![e2] + rest));
    lemma_archived_after(entries, e1, seq![e2] + rest);
    lemma_archived_after(entries, e2, rest);
    match utc_digits(secs) {
        Some(digits) => {
            lemma_placing_adds_nothing(entries, digits, taken, 0, local);
        },
        None => {
            lemma_archived_one(entries, exchange(ActionModel::DiscardTemp, ReplyModel::Done));
        },
    }
}

/// What an archive holds. The exchanges of a download of `items` make an
/// archive that holds, in the order of the items: for each file one entry
/// under its name, with exactly the bytes that the host handed out for it; for
/// each directory one entry for each file below it, named by the names
/// from the directory down to the file, joined by `/`; and nothing else.
pub proof fn lemma_download_archives(
    dir: Seq<char>,
    items: Seq<Remote>,
    secs: i64,
    taken: Seq<Seq<char>>,
    local: Seq<char>,
)
    ensures
        archived(Seq::empty(), download(dir, items, secs, taken, local)) == packed_items(items, 0),
{
    let none = Seq::<Packed>::empty();
    let e1 = exchange(ActionModel::CreateTemp, ReplyModel::Done);
    let e2 = exchange(ActionModel::CreateArchive, ReplyModel::Done);
    let a = sizing(dir, items, 0, 0);
    let b = requested(dir, items, 0);
    let c = closing(secs, taken, local);
    assert(download(dir, items, secs, taken, local) =~= seq![e1] + (seq![e2] + (a + (b + c))));
    lemma_archived_after(none, e1, seq![e2] + (a + (b + c)));
    lemma_archived_after(none, e2, a + (b + c));
    lemma_archived_in_a_row(none, a, b + c);
    lemma_sizing_adds_nothing(none, dir, items, 0, 0);
    lemma_archived_in_a_row(none, b, c);
    lemma_requested_adds_entries(none, dir, items, 0);
    lemma_closing_adds_nothing(none + packed_items(items, 0), secs, taken, local);
    assert(none + packed_items(items, 0) =~= packed_items(items, 0));
}

/// An archive of files holds one entry for each. Where every requested
/// item is a file, the archive holds as many entries as there are items,
/// the entry at each index under the name of the item at that index and
/// with exactly the bytes that the host handed out for it.
pub proof fn lemma_files_are_archived_one_by_one(items: Seq<Remote>, from: nat)
    requires
        from <= items.len(),
        forall|i: int| 0 <= i < items.len() ==> is_regular_file(#[trigger] items[i].stat),
    ensures
        packed_items(items, from).len() == items.len() - from,
        forall|i: int|
            0 <= i < items.len() - from ==> #[trigger] packed_items(items, from)[i] == (Packed {
                name: items[from + i].name,
                bytes: content(items[from + i].chunks, 0),
            }),
    decreases items.len() - from,
{
    if from < items.len() {
        lemma_files_are_archived_one_by_one(items, from + 1);
        let first = packed(items[from as int].name, items[from as int]);
        let rest = packed_items(items, from + 1);
        assert(first.len() == 1);
        assert forall|i: int| 0 <= i < items.len() - from implies #[trigger] packed_items(
            items,
            from,
        )[i] == (Packed {
            name: items[from + i].name,
            bytes: content(items[from + i].chunks, 0),
        }) by {
            if i > 0 {
                assert((first + rest)[i] == rest[i - 1]);
            }
        }
    }
}

/// Going on with what is left to archive never ends the download: it asks
/// for an action.
pub proof fn lemma_seek_performs(m: ZipModel)
    ensures
        m.seek() is Perform,
    decreases m.frames.len(),
{
    if m.frames.len() > 0 {
        let top = m.frames.last();
        let stop = next_stop(top.entries, top.next);
        if stop >= top.entries.len() {
            lemma_seek_performs(ZipModel { frames: m.frames.drop_last(), ..m }.past_current());
        }
    }
}

/// The temporary storage is released on every way out. A download fails
/// only while it sets the storage up, when the release itself fails, or in
/// answer to the release that it asked for in order to give up; and it
/// succeeds only in answer to a release.
pub proof fn lemma_storage_is_released(m: ZipModel, reply: ReplyModel)
    ensures
        m.next(reply) is Failed ==> m.stage == ZipStage::MakingTemp || m.stage
            == ZipStage::Discarding || m.stage == ZipStage::Abandoning,
        m.next(reply) is Finished ==> m.stage == ZipStage::Discarding,
        m.next(reply) matches TurnModel::Perform(after, action) ==> (after.stage
            == ZipStage::Abandoning || after.stage == ZipStage::Discarding) == (action
            == ActionModel::DiscardTemp),
{
    lemma_seek_performs(m);
    lemma_seek_performs(ZipModel { item: 0, ..m });
    lemma_seek_performs(m.past_current());
    lemma_seek_performs(m.settled().past_current());
    lemma_seek_keeps_storage(m);
    lemma_seek_keeps_storage(ZipModel { item: 0, ..m });
    lemma_seek_keeps_storage(m.past_current());
    lemma_seek_keeps_storage(m.settled().past_current());
}

/// Going on with what is left to archive asks for the release of the
/// temporary storage exactly where it gives the download up.
proof fn lemma_seek_keeps_storage(m: ZipModel)
    ensures
        m.seek() matches TurnModel::Perform(after, action) ==> after.stage
            != ZipStage::Discarding && (after.stage == ZipStage::Abandoning) == (action
            == ActionModel::DiscardTemp),
    decreases m.frames.len(),
{
    if m.frames.len() > 0 {
        let top = m.frames.last();
        let stop = next_stop(top.entries, top.next);
        if stop >= top.entries.len() {
            lemma_seek_keeps_storage(ZipModel { frames: m.frames.drop_last(), ..m }.past_current());
        }
    }
}

/// Going on with what is left to archive asks for nothing that exceeds the
/// buffer.
proof fn lemma_seek_fits(m: ZipModel)
    ensures
        m.seek() matches TurnModel::Perform(_, action) ==> fits_buffer(action, CHUNK_SIZE),
    decreases m.frames.len(),
{
    if m.frames.len() > 0 {
        let top = m.frames.last();
        let stop = next_stop(top.entries, top.next);
        if stop >= top.entries.len() {
            lemma_seek_fits(ZipModel { frames: m.frames.drop_last(), ..m }.past_current());
        }
    }
}

/// An archive download reads and writes no more than a buffer holds at a
/// time.
pub proof fn lemma_fits_buffer(m: ZipModel, reply: ReplyModel)
    ensures
        m.next(reply) matches TurnModel::Perform(_, action) ==> fits_buffer(action, CHUNK_SIZE),
{
    lemma_seek_fits(m);
    lemma_seek_fits(ZipModel { item: 0, ..m });
    lemma_seek_fits(m.past_current());
    lemma_seek_fits(m.settled().past_current());
}

/// An archive download stops at the first failure. Whatever the download
/// waits for with the temporary storage at hand, but for a notification of
/// the subscribers and the closing of a file that was archived, a failure
/// makes it give up: it asks for the release of the storage and then fails
/// with the failure that made it give up.
pub proof fn lemma_failure_ends_download(m: ZipModel, why: Seq<char>, reply: ReplyModel)
    requires
        m.stage != ZipStage::MakingTemp,
        m.stage != ZipStage::Announcing,
        m.stage != ZipStage::FileAnnounce,
        m.stage != ZipStage::FileReport,
        m.stage != ZipStage::FileClose,
        m.stage != ZipStage::DirAnnounce,
        m.stage != ZipStage::Discarding,
        m.stage != ZipStage::Abandoning,
    ensures
        m.next(ReplyModel::Failed(why)) matches TurnModel::Perform(after, action) && action
            == ActionModel::DiscardTemp && after.stage == ZipStage::Abandoning
            && after.failure is Some && after.next(reply) == TurnModel::<ZipModel>::Failed(
            after.failure->0,
        ),
{
}

/// Going on with what is left to archive neither claims a place for the
/// archive nor moves it.
proof fn lemma_seek_claims_nothing(m: ZipModel)
    ensures
        m.seek() matches TurnModel::Perform(after, action) ==> !(action is MoveArchive)
            && !(action is ClaimLocal) && !(action is LocateLocal) && after.stage
            != ZipStage::Claiming,
    decreases m.frames.len(),
{
    if m.frames.len() > 0 {
        let top = m.frames.last();
        let stop = next_stop(top.entries, top.next);
        if stop >= top.entries.len() {
            lemma_seek_claims_nothing(
                ZipModel { frames: m.frames.drop_last(), ..m }.past_current(),
            );
        }
    }
}

/// No archive replaces what is there, nor another archive. A download
/// moves the archive only to the path that it claimed last, and only when
/// it was told that the path was not taken; told that it was, it goes on to
/// the name of the next attempt, which differs from all that it tried
/// before (see `lemma_candidates_differ`).
pub proof fn lemma_archive_goes_to_a_free_place(m: ZipModel, reply: ReplyModel)
    ensures
        m.next(reply) matches TurnModel::Perform(after, action) ==> {
            &&& action matches ActionModel::MoveArchive { to } ==> m.stage == ZipStage::Claiming
                && reply == ReplyModel::Flag(false) && to == m.local
            &&& action matches ActionModel::ClaimLocal { path } ==> after.stage
                == ZipStage::Claiming && after.local == path
            &&& after.stage == ZipStage::Claiming ==> action is ClaimLocal
            &&& m.stage == ZipStage::Claiming && reply == ReplyModel::Flag(true) && m.attempt
                < u64::MAX ==> action == (ActionModel::LocateLocal {
                name: candidate(m.stamp, (m.attempt + 1) as nat),
            })
        },
{
    lemma_seek_claims_nothing(m);
    lemma_seek_claims_nothing(ZipModel { item: 0, ..m });
    lemma_seek_claims_nothing(m.past_current());
    lemma_seek_claims_nothing(m.settled().past_current());
    lemma_seek_keeps_storage(m);
    lemma_seek_keeps_storage(ZipModel { item: 0, ..m });
    lemma_seek_keeps_storage(m.past_current());
    lemma_seek_keeps_storage(m.settled().past_current());
}

} // verus!
