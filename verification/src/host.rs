//! A model of what a remote host holds below a path, to state what an
//! operation does when the host answers as that content demands.

use crate::paths::{child, proper_name};
use crate::stat::{EntryModel, RemoteStat};
use crate::CHUNK_SIZE;
use vstd::prelude::*;

verus! {

/// A remote entry with what lies below it.
pub struct Remote {
    /// The name of the entry in its directory.
    pub name: Seq<char>,
    /// The attributes that the host reports for it.
    pub stat: RemoteStat,
    /// For a file: the bytes that the host hands out, one read after the
    /// other, until the file ends.
    pub chunks: Seq<Seq<u8>>,
    /// For a directory: its entries, in the order in which the host lists
    /// them.
    pub children: Seq<Remote>,
}

/// A local file to upload.
pub struct Local {
    /// The path of the file.
    pub path: Seq<char>,
    /// The final component of the path.
    pub name: Seq<char>,
    /// The size of the file, in bytes.
    pub size: u64,
    /// The bytes that the reads hand out, one after the other, until the
    /// file ends.
    pub chunks: Seq<Seq<u8>>,
}

/// The paths of `files`.
pub open spec fn paths_of(files: Seq<Local>) -> Seq<Seq<char>> {
    Seq::new(files.len(), |i: int| files[i].path)
}

/// Whether each read of `chunks` gives at least one byte and at most a
/// buffer full.
pub open spec fn within_buffer(chunks: Seq<Seq<u8>>) -> bool {
    forall|i: int| 0 <= i < chunks.len() ==> 0 < #[trigger] chunks[i].len() <= CHUNK_SIZE
}

/// The names of `entries`.
pub open spec fn names_of(entries: Seq<Remote>) -> Seq<Seq<char>> {
    Seq::new(entries.len(), |i: int| entries[i].name)
}

/// What the host lists for the directory at `dir` that holds `children`.
pub open spec fn listing(dir: Seq<char>, children: Seq<Remote>) -> Seq<EntryModel> {
    Seq::new(
        children.len(),
        |i: int| EntryModel { path: child(dir, children[i].name), stat: children[i].stat },
    )
}

/// Whether `children` can be the entries of one directory: each has a
/// proper name, and no two have the same.
pub open spec fn sound_entries(children: Seq<Remote>) -> bool {
    &&& forall|i: int| 0 <= i < children.len() ==> proper_name(#[trigger] children[i].name)
    &&& forall|i: int, j: int|
        0 <= i < children.len() && 0 <= j < children.len() && i != j ==> (
        #[trigger] children[i]).name != (#[trigger] children[j]).name
}

/// Whether one of `children` is called `name`.
pub open spec fn holds_name(children: Seq<Remote>, name: Seq<char>) -> bool {
    exists|i: int| 0 <= i < children.len() && (#[trigger] children[i]).name == name
}

/// What a directory holds that held `children`, once the host has created
/// in it the empty folder `name`, of which it reports `stat`.
pub open spec fn with_folder(children: Seq<Remote>, name: Seq<char>, stat: RemoteStat) -> Seq<
    Remote,
> {
    children.push(Remote { name, stat, chunks: Seq::empty(), children: Seq::empty() })
}

/// What a directory holds that held `children`, once the host has renamed
/// the entry at `index` to `name`.
pub open spec fn with_renamed(children: Seq<Remote>, index: int, name: Seq<char>) -> Seq<Remote> {
    children.update(index, Remote { name, ..children[index] })
}

/// What a directory holds that held `children`, once the host has deleted
/// the entry at `index` with all that lay below it.
pub open spec fn without(children: Seq<Remote>, index: int) -> Seq<Remote> {
    children.remove(index)
}

/// Whether the host can hand out the file `t`: it reports a size, and each
/// read gives at least one byte and at most a buffer full.
pub open spec fn readable(t: Remote) -> bool {
    t.stat.size is Some && within_buffer(t.chunks)
}

/// The bytes that the reads from the index `from` on hand out, in order.
pub open spec fn content(chunks: Seq<Seq<u8>>, from: nat) -> Seq<u8>
    decreases chunks.len() - from,
{
    if from >= chunks.len() {
        Seq::empty()
    } else {
        chunks[from as int] + content(chunks, from + 1)
    }
}

/// What a host hands out for a file that holds `data` when it fills the
/// buffer with every read but the last.
pub open spec fn full_reads(data: Seq<u8>) -> Seq<Seq<u8>>
    decreases data.len(),
{
    if data.len() == 0 {
        Seq::empty()
    } else if data.len() <= CHUNK_SIZE {
        seq![data]
    } else {
        seq![data.subrange(0, CHUNK_SIZE as int)] + full_reads(
            data.subrange(CHUNK_SIZE as int, data.len() as int),
        )
    }
}

/// A host that fills the buffer hands out a file in as many reads as its
/// size holds buffers, a last one that is not full counted; each read gives
/// at least one byte and at most a buffer full, and together they give the
/// file.
pub proof fn lemma_full_reads(data: Seq<u8>)
    ensures
        full_reads(data).len() == (data.len() + CHUNK_SIZE - 1) / (CHUNK_SIZE as int),
        content(full_reads(data), 0) == data,
        within_buffer(full_reads(data)),
    decreases data.len(),
{
    let reads = full_reads(data);
    if data.len() == 0 {
    } else if data.len() <= CHUNK_SIZE {
        assert(content(reads, 1) =~= Seq::<u8>::empty());
        assert(content(reads, 0) =~= reads[0] + content(reads, 1));
        assert(content(reads, 0) =~= data);
    } else {
        let first = data.subrange(0, CHUNK_SIZE as int);
        let behind = data.subrange(CHUNK_SIZE as int, data.len() as int);
        let rest = full_reads(behind);
        lemma_full_reads(behind);
        lemma_content_behind(seq![first], rest, 0);
        assert(content(reads, 1) == content(rest, 0));
        assert(content(reads, 0) =~= reads[0] + content(reads, 1));
        assert(first + behind =~= data);
        assert forall|i: int| 0 <= i < reads.len() implies 0 < #[trigger] reads[i].len()
            <= CHUNK_SIZE by {
            if i > 0 {
                assert(reads[i] == rest[i - 1]);
            }
        }
    }
}

/// Reads that stand behind others give what they give alone.
pub proof fn lemma_content_behind(before: Seq<Seq<u8>>, chunks: Seq<Seq<u8>>, from: nat)
    ensures
        content(before + chunks, before.len() + from) == content(chunks, from),
    decreases chunks.len() - from,
{
    if from < chunks.len() {
        assert((before + chunks)[before.len() + from as int] == chunks[from as int]);
        lemma_content_behind(before, chunks, from + 1);
    }
}

} // verus!
