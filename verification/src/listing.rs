//! Directory listings: each entry of a remote directory described by name,
//! kind, size and modification time.

use crate::paths::{
    child, extension, extension_of, file_name, file_name_of, lemma_file_name_of_child, proper_name,
};
use crate::host::{
    holds_name, listing, sound_entries, with_folder, with_renamed, without, Remote,
};
use crate::stat::{
    entry_models, is_directory, mtime_or_zero, size_or_zero, EntryModel, RemoteEntry, RemoteStat,
};
use crate::text::{decimal, decimal_string, lowercase, lowercase_string};
use vstd::prelude::*;
use vstd::string::*;

verus! {

/// What a listing shows of one entry.
#[derive(Debug)]
pub struct FileInfo {
    pub name: String,
    pub file_type: String,
    pub size: u64,
    pub last_modified: String,
}

/// A [`FileInfo`] with its texts as sequences of characters.
pub struct FileInfoModel {
    pub name: Seq<char>,
    pub file_type: Seq<char>,
    pub size: u64,
    pub last_modified: Seq<char>,
}

impl View for FileInfo {
    type V = FileInfoModel;

    open spec fn view(&self) -> FileInfoModel {
        FileInfoModel {
            name: self.name@,
            file_type: self.file_type@,
            size: self.size,
            last_modified: self.last_modified@,
        }
    }
}

/// The kind of an entry: a directory, a file with an extension, or a file
/// without one.
#[derive(Debug)]
pub enum FileKind {
    Directory,
    Extension(String),
    Unknown,
}

/// A [`FileKind`] with its extension as a sequence of characters.
pub enum KindModel {
    Directory,
    Extension(Seq<char>),
    Unknown,
}

impl View for FileKind {
    type V = KindModel;

    open spec fn view(&self) -> KindModel {
        match self {
            FileKind::Directory => KindModel::Directory,
            FileKind::Extension(e) => KindModel::Extension(e@),
            FileKind::Unknown => KindModel::Unknown,
        }
    }
}

/// The kind of the entry called `name` with the attributes `stat`: a
/// directory where the host says so, else by the lower-cased extension.
pub open spec fn kind_of(name: Seq<char>, stat: RemoteStat) -> KindModel {
    if is_directory(stat) {
        KindModel::Directory
    } else {
        match extension(name) {
            Some(e) => KindModel::Extension(lowercase(e)),
            None => KindModel::Unknown,
        }
    }
}

/// The text that a listing shows for a kind.
pub open spec fn kind_label(kind: KindModel) -> Seq<char> {
    match kind {
        KindModel::Directory => "Folder"@,
        KindModel::Extension(e) => e,
        KindModel::Unknown => "Unknown"@,
    }
}

/// What a listing shows of the entry at `path`: nothing where the path has
/// no final component.
pub open spec fn described(entry: EntryModel) -> Option<FileInfoModel> {
    match file_name(entry.path) {
        Some(name) => Some(
            FileInfoModel {
                name,
                file_type: kind_label(kind_of(name, entry.stat)),
                size: size_or_zero(entry.stat),
                last_modified: decimal(mtime_or_zero(entry.stat) as nat),
            },
        ),
        None => None,
    }
}

/// The listing of `entries`: the description of each entry that has one, in
/// the order of the entries.
pub open spec fn listed(entries: Seq<EntryModel>) -> Seq<FileInfoModel>
    decreases entries.len(),
{
    if entries.len() == 0 {
        Seq::empty()
    } else {
        match described(entries.last()) {
            Some(info) => listed(entries.drop_last()).push(info),
            None => listed(entries.drop_last()),
        }
    }
}

/// The descriptions in `v` as models.
pub open spec fn info_models(v: Seq<FileInfo>) -> Seq<FileInfoModel> {
    v.map_values(|f: FileInfo| f@)
}

impl FileKind {
    /// Classifies the entry called `name`.
    pub fn classify(name: &str, stat: &RemoteStat) -> (kind: FileKind)
        ensures
            kind@ == kind_of(name@, *stat),
    {
        if stat.is_dir() {
            FileKind::Directory
        } else {
            match extension_of(name) {
                Some(e) => FileKind::Extension(lowercase_string(e.as_str())),
                None => FileKind::Unknown,
            }
        }
    }

    /// The text that a listing shows for this kind.
    pub fn label(self) -> (r: String)
        ensures
            r@ == kind_label(self@),
    {
        match self {
            FileKind::Directory => String::from_str("Folder"),
            FileKind::Extension(e) => e,
            FileKind::Unknown => String::from_str("Unknown"),
        }
    }
}

/// Describes one entry of a directory.
pub fn describe(entry: &RemoteEntry) -> (r: Option<FileInfo>)
    ensures
        match r {
            Some(info) => described(entry@) == Some(info@),
            None => described(entry@) is None,
        },
{
    match file_name_of(entry.path.as_str()) {
        Some(name) => {
            let kind = FileKind::classify(name.as_str(), &entry.stat);
            Some(
                FileInfo {
                    name,
                    file_type: kind.label(),
                    size: entry.stat.size_or_zero(),
                    last_modified: decimal_string(entry.stat.mtime_or_zero()),
                },
            )
        },
        None => None,
    }
}

/// Describes the entries of a directory, in the order in which the host
/// gave them.
pub fn list_files_in_directory(entries: &Vec<RemoteEntry>) -> (files: Vec<FileInfo>)
    ensures
        info_models(files@) == listed(entry_models(entries@)),
{
    let mut files: Vec<FileInfo> = Vec::new();
    let mut i: usize = 0;
    while i < entries.len()
        invariant
            i <= entries.len(),
            info_models(files@) == listed(entry_models(entries@).subrange(0, i as int)),
        decreases entries.len() - i,
    {
        proof {
            let all = entry_models(entries@);
            let next = all.subrange(0, i + 1);
            assert(next.drop_last() =~= all.subrange(0, i as int));
            assert(next.last() == entries@[i as int]@);
        }
        let ghost before = files@;
        match describe(&entries[i]) {
            Some(info) => {
                files.push(info);
                assert(info_models(files@) =~= info_models(before).push(info@));
            },
            None => {},
        }
        i = i + 1;
    }
    proof {
        assert(entry_models(entries@).subrange(0, entries.len() as int) =~= entry_models(
            entries@,
        ));
    }
    files
}

/// A directory is listed as a folder. The entry of a directory that the
/// host reports as a directory is described under its name, as a folder,
/// whatever its name.
pub proof fn lemma_directory_is_listed_as_folder(dir: Seq<char>, name: Seq<char>, stat: RemoteStat)
    requires
        proper_name(name),
        is_directory(stat),
    ensures
        described(EntryModel { path: child(dir, name), stat }) == Some(
            FileInfoModel {
                name,
                file_type: "Folder"@,
                size: size_or_zero(stat),
                last_modified: decimal(mtime_or_zero(stat) as nat),
            },
        ),
{
    lemma_file_name_of_child(dir, name);
}

/// A name does not change what else is shown. Two entries with the same
/// attributes are described with the same size and the same time of
/// modification, under their own names; and with the same kind where they
/// are directories or have the same extension.
pub proof fn lemma_renamed_entry_is_listed_alike(
    dir: Seq<char>,
    old: Seq<char>,
    new: Seq<char>,
    stat: RemoteStat,
)
    requires
        proper_name(old),
        proper_name(new),
    ensures
        described(EntryModel { path: child(dir, old), stat }) matches Some(before)
            && described(EntryModel { path: child(dir, new), stat }) matches Some(after)
            && before.name == old && after.name == new && after.size == before.size
            && after.last_modified == before.last_modified && (is_directory(stat) || extension(old)
            == extension(new) ==> after.file_type == before.file_type),
{
    lemma_file_name_of_child(dir, old);
    lemma_file_name_of_child(dir, new);
}

/// What a listing shows of the entry `entry` of a directory.
pub open spec fn shown(entry: Remote) -> FileInfoModel {
    FileInfoModel {
        name: entry.name,
        file_type: kind_label(kind_of(entry.name, entry.stat)),
        size: size_or_zero(entry.stat),
        last_modified: decimal(mtime_or_zero(entry.stat) as nat),
    }
}

/// A listing shows every entry, once and in order. Where the host holds
/// `children` in `dir`, each under a proper name, the listing of what the
/// host lists for `dir` holds one description for each of them, in their
/// order.
pub proof fn lemma_listing_shows_every_entry(dir: Seq<char>, children: Seq<Remote>)
    requires
        forall|i: int| 0 <= i < children.len() ==> proper_name(#[trigger] children[i].name),
    ensures
        listed(listing(dir, children)) == Seq::new(children.len(), |i: int| shown(children[i])),
    decreases children.len(),
{
    let entries = listing(dir, children);
    let expected = Seq::new(children.len(), |i: int| shown(children[i]));
    if children.len() == 0 {
        assert(listed(entries) =~= expected);
    } else {
        let before = children.drop_last();
        let last = children.last();
        lemma_listing_shows_every_entry(dir, before);
        lemma_file_name_of_child(dir, last.name);
        assert(entries.drop_last() =~= listing(dir, before));
        assert(entries.last() == EntryModel { path: child(dir, last.name), stat: last.stat });
        assert(described(entries.last()) == Some(shown(last)));
        assert(listed(entries) == listed(entries.drop_last()).push(shown(last)));
        assert(listed(entries) =~= expected);
    }
}

/// A created folder is listed, once. Where the host held `children` in
/// `dir`, none of them called `name`, and has created the folder `name`
/// there, a listing of `dir` shows what it showed before, and behind that
/// one entry called `name`, as a folder; no other entry is called `name`.
pub proof fn lemma_created_folder_is_listed_once(
    dir: Seq<char>,
    children: Seq<Remote>,
    name: Seq<char>,
    stat: RemoteStat,
)
    requires
        sound_entries(children),
        proper_name(name),
        !holds_name(children, name),
        is_directory(stat),
    ensures
        sound_entries(with_folder(children, name, stat)),
        listed(listing(dir, with_folder(children, name, stat))) == listed(
            listing(dir, children),
        ).push(
            FileInfoModel {
                name,
                file_type: "Folder"@,
                size: size_or_zero(stat),
                last_modified: decimal(mtime_or_zero(stat) as nat),
            },
        ),
        forall|i: int|
            0 <= i < children.len() ==> (#[trigger] listed(listing(dir, children))[i]).name
                != name,
{
    let after = with_folder(children, name, stat);
    assert forall|i: int, j: int|
        0 <= i < after.len() && 0 <= j < after.len() && i != j implies (#[trigger] after[i]).name
        != (#[trigger] after[j]).name by {
        if i < children.len() && j < children.len() {
            assert(children[i].name != children[j].name);
        } else if i < children.len() {
            assert(children[i].name != name);
        } else {
            assert(children[j].name != name);
        }
    }
    lemma_listing_shows_every_entry(dir, children);
    lemma_listing_shows_every_entry(dir, after);
    assert(listed(listing(dir, after)) =~= listed(listing(dir, children)).push(shown(after.last())));
    assert forall|i: int| 0 <= i < children.len() implies (#[trigger] listed(
        listing(dir, children),
    )[i]).name != name by {
        assert(children[i].name != name);
    }
}

/// A renamed entry is listed under its new name only. Where the host held
/// `children` in `dir`, none of them called `name`, and has renamed the
/// entry at `index` to `name`, a listing of `dir` shows no entry under the
/// old name and, in the place of the old one, one entry called `name`, of
/// the same size and time of modification, and of the same kind where it is
/// a directory or the extension is the same; every other entry is shown as
/// before.
pub proof fn lemma_renamed_entry_is_listed_once(
    dir: Seq<char>,
    children: Seq<Remote>,
    index: int,
    name: Seq<char>,
)
    requires
        sound_entries(children),
        0 <= index < children.len(),
        proper_name(name),
        !holds_name(children, name),
    ensures
        sound_entries(with_renamed(children, index, name)),
        listed(listing(dir, with_renamed(children, index, name))) == listed(
            listing(dir, children),
        ).update(index, shown(Remote { name, ..children[index] })),
        shown(Remote { name, ..children[index] }).size == shown(children[index]).size,
        shown(Remote { name, ..children[index] }).last_modified == shown(
            children[index],
        ).last_modified,
        is_directory(children[index].stat) || extension(name) == extension(children[index].name)
            ==> shown(Remote { name, ..children[index] }).file_type == shown(
            children[index],
        ).file_type,
        forall|i: int|
            0 <= i < children.len() ==> (#[trigger] listed(
                listing(dir, with_renamed(children, index, name)),
            )[i]).name != children[index].name,
{
    let old = children[index].name;
    let after = with_renamed(children, index, name);
    assert(old != name) by {
        assert(children[index].name == old);
    }
    assert forall|i: int| 0 <= i < after.len() implies proper_name(#[trigger] after[i].name) by {
        if i != index {
            assert(after[i] == children[i]);
        }
    }
    assert forall|i: int, j: int|
        0 <= i < after.len() && 0 <= j < after.len() && i != j implies (#[trigger] after[i]).name
        != (#[trigger] after[j]).name by {
        if i != index && j != index {
            assert(children[i].name != children[j].name);
        } else if i == index {
            assert(children[j].name != name);
        } else {
            assert(children[i].name != name);
        }
    }
    lemma_listing_shows_every_entry(dir, children);
    lemma_listing_shows_every_entry(dir, after);
    assert(listed(listing(dir, after)) =~= listed(listing(dir, children)).update(
        index,
        shown(Remote { name, ..children[index] }),
    ));
    assert forall|i: int| 0 <= i < children.len() implies (#[trigger] listed(
        listing(dir, after),
    )[i]).name != old by {
        if i != index {
            assert(children[i].name != children[index].name);
        }
    }
}

/// A deleted entry is listed no more. Where the host held `children` in
/// `dir` and has deleted the entry at `index`, with all that lay below it,
/// a listing of `dir` shows no entry under its name, and every other entry
/// as before, in the same order.
pub proof fn lemma_deleted_entry_is_not_listed(dir: Seq<char>, children: Seq<Remote>, index: int)
    requires
        sound_entries(children),
        0 <= index < children.len(),
    ensures
        sound_entries(without(children, index)),
        listed(listing(dir, without(children, index))) == listed(listing(dir, children)).remove(
            index,
        ),
        forall|i: int|
            0 <= i < children.len() - 1 ==> (#[trigger] listed(
                listing(dir, without(children, index)),
            )[i]).name != children[index].name,
{
    let after = without(children, index);
    assert forall|i: int| 0 <= i < after.len() implies proper_name(#[trigger] after[i].name) by {
        if i < index {
            assert(after[i] == children[i]);
        } else {
            assert(after[i] == children[i + 1]);
        }
    }
    assert forall|i: int, j: int|
        0 <= i < after.len() && 0 <= j < after.len() && i != j implies (#[trigger] after[i]).name
        != (#[trigger] after[j]).name by {
        let a = if i < index { i } else { i + 1 };
        let b = if j < index { j } else { j + 1 };
        assert(after[i] == children[a]);
        assert(after[j] == children[b]);
        assert(children[a].name != children[b].name);
    }
    lemma_listing_shows_every_entry(dir, children);
    lemma_listing_shows_every_entry(dir, after);
    assert(listed(listing(dir, after)) =~= listed(listing(dir, children)).remove(index));
    assert forall|i: int| 0 <= i < children.len() - 1 implies (#[trigger] listed(
        listing(dir, after),
    )[i]).name != children[index].name by {
        let a = if i < index { i } else { i + 1 };
        assert(after[i] == children[a]);
        assert(children[a].name != children[index].name);
    }
}

} // verus!
