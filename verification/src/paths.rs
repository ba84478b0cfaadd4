//! Remote paths: `/`-separated texts, built by joining and taken apart into
//! a final component and its extension.

use crate::text::{chars_of, join_segments, joined, text_of};
use vstd::prelude::*;
use vstd::string::*;

verus! {

/// The path of the entry `name` in the directory `dir`.
pub open spec fn child(dir: Seq<char>, name: Seq<char>) -> Seq<char> {
    dir + seq!['/'] + name
}

/// Joins a directory and an entry name with `/`.
pub fn child_path(dir: &str, name: &str) -> (r: String)
    ensures
        r@ == child(dir@, name@),
{
    let mut r = String::from_str(dir);
    r.push('/');
    r.append(name);
    r
}

/// The directory, below the remote home, that holds every user's workspace.
pub open spec fn base_directory(home: Seq<char>) -> Seq<char> {
    child(home, "pi-interface"@)
}

/// The workspace of `user`: `<home>/pi-interface/<user>`.
pub open spec fn workspace_root(home: Seq<char>, user: Seq<char>) -> Seq<char> {
    child(base_directory(home), user)
}

/// The directory that a command addresses: the workspace itself where
/// `segments` is empty, else the segments joined by `/` below it.
pub open spec fn current_directory(
    home: Seq<char>,
    user: Seq<char>,
    segments: Seq<Seq<char>>,
) -> Seq<char> {
    if segments.len() == 0 {
        workspace_root(home, user)
    } else {
        child(workspace_root(home, user), joined(segments))
    }
}

/// Computes [`base_directory`].
pub fn base_directory_path(home: &str) -> (r: String)
    ensures
        r@ == base_directory(home@),
{
    child_path(home, "pi-interface")
}

/// Computes [`workspace_root`].
pub fn workspace_root_path(home: &str, user: &str) -> (r: String)
    ensures
        r@ == workspace_root(home@, user@),
{
    let base = base_directory_path(home);
    child_path(base.as_str(), user)
}

/// Computes [`current_directory`].
pub fn current_directory_path(home: &str, user: &str, segments: &Vec<String>) -> (r: String)
    ensures
        r@ == current_directory(home@, user@, segments.deep_view()),
{
    let root = workspace_root_path(home, user);
    if segments.len() == 0 {
        assert(segments.deep_view().len() == 0);
        root
    } else {
        assert(segments.deep_view().len() == segments.len());
        let below = join_segments(segments);
        child_path(root.as_str(), below.as_str())
    }
}

/// `p` without the `/` and `/.` that end it: neither adds a component.
pub open spec fn without_trailing(p: Seq<char>) -> Seq<char>
    decreases p.len(),
{
    if p.len() > 0 && p.last() == '/' {
        without_trailing(p.drop_last())
    } else if p.len() >= 2 && p.last() == '.' && p[p.len() - 2] == '/' {
        without_trailing(p.drop_last())
    } else {
        p
    }
}

/// The index at which the last component of `p` starts: behind the last `/`,
/// or 0 where `p` holds none.
pub open spec fn last_component_start(p: Seq<char>) -> int
    decreases p.len(),
{
    if p.len() == 0 {
        0
    } else if p.last() == '/' {
        p.len() as int
    } else {
        last_component_start(p.drop_last())
    }
}

/// The final component of the path `p`. There is none where nothing is left
/// of `p` without its trailing `/` and `/.`, and none where the last
/// component is `.` or `..`.
pub open spec fn file_name(p: Seq<char>) -> Option<Seq<char>> {
    let t = without_trailing(p);
    let name = t.subrange(last_component_start(t), t.len() as int);
    if name.len() == 0 || name == seq!['.'] || name == seq!['.', '.'] {
        None
    } else {
        Some(name)
    }
}

/// The index of the last `.` in `name`, or -1 where it holds none.
pub open spec fn last_dot(name: Seq<char>) -> int
    decreases name.len(),
{
    if name.len() == 0 {
        -1
    } else if name.last() == '.' {
        name.len() - 1
    } else {
        last_dot(name.drop_last())
    }
}

/// The extension of the file name `name`: what follows its last `.`. There
/// is none where `name` holds no `.`, and none where its only `.` is its
/// first character.
pub open spec fn extension(name: Seq<char>) -> Option<Seq<char>> {
    let dot = last_dot(name);
    if dot <= 0 {
        None
    } else {
        Some(name.subrange(dot + 1, name.len() as int))
    }
}

/// A path whose head up to `end` does not end in `/` or `/.`, and loses as
/// much as the whole, is that head without its trailing `/` and `/.`.
proof fn lemma_without_trailing(p: Seq<char>, end: int)
    requires
        0 <= end <= p.len(),
        without_trailing(p) == without_trailing(p.subrange(0, end)),
        !(end > 0 && p[end - 1] == '/'),
        !(end >= 2 && p[end - 1] == '.' && p[end - 2] == '/'),
    ensures
        without_trailing(p) == p.subrange(0, end),
{
}

/// The last component starts behind a `/` that no other `/` follows.
proof fn lemma_last_component_start(p: Seq<char>, start: int)
    requires
        0 <= start <= p.len(),
        forall|j: int| start <= j < p.len() ==> #[trigger] p[j] != '/',
        start > 0 ==> p[start - 1] == '/',
    ensures
        last_component_start(p) == start,
    decreases p.len(),
{
    if p.len() > 0 && p.last() != '/' {
        let q = p.drop_last();
        assert forall|j: int| start <= j < q.len() implies #[trigger] q[j] != '/' by {
            assert(q[j] == p[j]);
        }
        lemma_last_component_start(q, start);
    }
}

/// The last `.` is one that no other `.` follows.
proof fn lemma_last_dot(name: Seq<char>, dot: int)
    requires
        -1 <= dot < name.len(),
        forall|j: int| dot < j < name.len() ==> #[trigger] name[j] != '.',
        dot >= 0 ==> name[dot] == '.',
    ensures
        last_dot(name) == dot,
    decreases name.len(),
{
    if name.len() > 0 && name.last() != '.' {
        let q = name.drop_last();
        assert forall|j: int| dot < j < q.len() implies #[trigger] q[j] != '.' by {
            assert(q[j] == name[j]);
        }
        lemma_last_dot(q, dot);
    }
}

/// Whether `name` can be the name of an entry of a directory: it is not
/// empty, holds no `/`, and is neither `.` nor `..`.
pub open spec fn proper_name(name: Seq<char>) -> bool {
    &&& name.len() > 0
    &&& forall|j: int| 0 <= j < name.len() ==> #[trigger] name[j] != '/'
    &&& name != seq!['.']
    &&& name != seq!['.', '.']
}

/// The final component of the path of an entry in a directory is the name
/// of the entry.
pub proof fn lemma_file_name_of_child(dir: Seq<char>, name: Seq<char>)
    requires
        proper_name(name),
    ensures
        file_name(child(dir, name)) == Some(name),
{
    let p = child(dir, name);
    let start = dir.len() + 1;
    assert(p.len() == start + name.len());
    assert(p[start - 1] == '/');
    assert forall|j: int| start <= j < p.len() implies #[trigger] p[j] != '/' by {
        assert(p[j] == name[j - start]);
    }
    assert(p.last() == name.last());
    if name.len() == 1 {
        assert(name[0] != '.') by {
            if name[0] == '.' {
                assert(name =~= seq!['.']);
            }
        }
    } else {
        assert(p[p.len() - 2] == name[name.len() - 2]);
    }
    assert(without_trailing(p) == p);
    lemma_last_component_start(p, start as int);
    assert(p.subrange(start as int, p.len() as int) =~= name);
}

/// The final component of a remote path.
pub fn file_name_of(path: &str) -> (r: Option<String>)
    ensures
        match r {
            Some(name) => file_name(path@) == Some(name@),
            None => file_name(path@) is None,
        },
{
    let chars = chars_of(path);
    let mut end: usize = chars.len();
    assert(path@.subrange(0, end as int) =~= path@);
    while end > 0 && (chars[end - 1] == '/' || (end >= 2 && chars[end - 1] == '.' && chars[end
        - 2] == '/'))
        invariant
            chars@ == path@,
            end <= chars.len(),
            without_trailing(path@) == without_trailing(path@.subrange(0, end as int)),
        decreases end,
    {
        proof {
            let q = path@.subrange(0, end as int);
            assert(q.drop_last() =~= path@.subrange(0, end - 1));
        }
        end = end - 1;
    }
    proof {
        lemma_without_trailing(path@, end as int);
    }
    let ghost t = path@.subrange(0, end as int);
    let mut start: usize = end;
    while start > 0 && chars[start - 1] != '/'
        invariant
            chars@ == path@,
            start <= end <= chars.len(),
            t == path@.subrange(0, end as int),
            forall|j: int| start <= j < end ==> #[trigger] t[j] != '/',
        decreases start,
    {
        start = start - 1;
    }
    proof {
        lemma_last_component_start(t, start as int);
        assert(t.subrange(start as int, end as int) =~= path@.subrange(start as int, end as int));
    }
    let ghost name = path@.subrange(start as int, end as int);
    if end - start == 0 {
        None
    } else if end - start == 1 && chars[start] == '.' {
        assert(name =~= seq!['.']);
        None
    } else if end - start == 2 && chars[start] == '.' && chars[start + 1] == '.' {
        assert(name =~= seq!['.', '.']);
        None
    } else {
        assert(name != seq!['.']) by {
            if name == seq!['.'] {
                assert(name.len() == 1 && name[0] == '.');
            }
        }
        assert(name != seq!['.', '.']) by {
            if name == seq!['.', '.'] {
                assert(name.len() == 2 && name[0] == '.' && name[1] == '.');
            }
        }
        Some(text_of(&chars, start, end))
    }
}

/// The extension of a file name.
pub fn extension_of(name: &str) -> (r: Option<String>)
    ensures
        match r {
            Some(ext) => extension(name@) == Some(ext@),
            None => extension(name@) is None,
        },
{
    let chars = chars_of(name);
    let mut after: usize = chars.len();
    while after > 0 && chars[after - 1] != '.'
        invariant
            chars@ == name@,
            after <= chars.len(),
            forall|j: int| after <= j < chars.len() ==> #[trigger] name@[j] != '.',
        decreases after,
    {
        after = after - 1;
    }
    proof {
        lemma_last_dot(name@, after - 1);
    }
    if after <= 1 {
        None
    } else {
        Some(text_of(&chars, after, chars.len()))
    }
}

} // verus!
