//! The directory tree under the audit root, as it was read, and the walk
//! that the rules make through it.

use vstd::prelude::*;
use vstd::slice::slice_subrange;

verus! {

/// One entry of a directory listing.
#[derive(Debug)]
pub enum Entry {
    /// A directory, with what its listing gave. A directory that could not
    /// be listed has no children.
    Directory { name: String, path: String, children: Vec<Entry> },
    /// A regular file. `content` is its text, where it was read and is text.
    File { name: String, path: String, content: Option<String> },
}

/// An `Entry` as plain mathematical values.
pub enum EntryView {
    Directory { name: Seq<char>, path: Seq<char>, children: Seq<EntryView> },
    File { name: Seq<char>, path: Seq<char>, content: Option<Seq<char>> },
}

impl View for Entry {
    type V = EntryView;

    open spec fn view(&self) -> EntryView
        decreases self, 0nat,
    {
        match self {
            Entry::Directory { name, path, children } => EntryView::Directory {
                name: name@,
                path: path@,
                children: first_views(children@, children@.len()),
            },
            Entry::File { name, path, content } => EntryView::File {
                name: name@,
                path: path@,
                content: match content {
                    Some(text) => Some(text@),
                    None => None,
                },
            },
        }
    }
}

/// The views of the first `n` entries of a listing.
pub open spec fn first_views(entries: Seq<Entry>, n: nat) -> Seq<EntryView>
    decreases entries, n,
{
    if 0 < n <= entries.len() {
        first_views(entries, (n - 1) as nat).push(entries[n - 1].view())
    } else {
        Seq::empty()
    }
}

impl EntryView {
    /// The entry's name within its directory.
    pub open spec fn name(self) -> Seq<char> {
        match self {
            EntryView::Directory { name, .. } => name,
            EntryView::File { name, .. } => name,
        }
    }

    /// The entry's path from the audit root.
    pub open spec fn path(self) -> Seq<char> {
        match self {
            EntryView::Directory { path, .. } => path,
            EntryView::File { path, .. } => path,
        }
    }

    /// The text of a file, where it was read.
    pub open spec fn content(self) -> Option<Seq<char>> {
        match self {
            EntryView::Directory { .. } => None,
            EntryView::File { content, .. } => content,
        }
    }
}

impl Entry {
    /// The entry's name within its directory.
    pub fn name(&self) -> (name: &String)
        ensures
            name@ == self@.name(),
    {
        match self {
            Entry::Directory { name, .. } => name,
            Entry::File { name, .. } => name,
        }
    }

    /// The entry's path from the audit root.
    pub fn path(&self) -> (path: &String)
        ensures
            path@ == self@.path(),
    {
        match self {
            Entry::Directory { path, .. } => path,
            Entry::File { path, .. } => path,
        }
    }

    /// The text of a file, where it was read.
    pub fn content(&self) -> (content: Option<&String>)
        ensures
            match content {
                Some(text) => self@.content() == Some(text@),
                None => self@.content() is None,
            },
    {
        match self {
            Entry::Directory { .. } => None,
            Entry::File { content, .. } => content.as_ref(),
        }
    }
}

/// The last dot of `name` stands at offset `at`.
pub open spec fn is_final_dot(name: Seq<char>, at: int) -> bool {
    &&& 0 <= at < name.len()
    &&& name[at] == '.'
    &&& forall|j: int| at < j < name.len() ==> name[j] != '.'
}

/// The extension of a file name: what follows its last dot. A name without
/// a dot has none, and neither has one whose only dot is its first
/// character.
pub open spec fn extension(name: Seq<char>) -> Option<Seq<char>> {
    if exists|at: int| at > 0 && is_final_dot(name, at) {
        let at = choose|at: int| at > 0 && is_final_dot(name, at);
        Some(name.skip(at + 1))
    } else {
        None
    }
}

/// From a dot that is not the first character of `name` on, `name` has a
/// last dot.
proof fn lemma_final_dot(name: Seq<char>, from: int) -> (at: int)
    requires
        0 < from < name.len(),
        name[from] == '.',
    ensures
        from <= at,
        is_final_dot(name, at),
    decreases name.len() - from,
{
    if exists|j: int| from < j < name.len() && name[j] == '.' {
        let next = choose|j: int| from < j < name.len() && name[j] == '.';
        lemma_final_dot(name, next)
    } else {
        from
    }
}

/// An extension is the part of the name after a dot that is not the name's
/// first character, and it holds no dot. A name without an extension holds no
/// dot but, at most, its first character.
pub proof fn lemma_extension(name: Seq<char>)
    ensures
        match extension(name) {
            Some(ext) => {
                &&& ext.len() + 1 < name.len()
                &&& name[name.len() - ext.len() - 1] == '.'
                &&& ext == name.skip(name.len() - ext.len())
                &&& forall|j: int| 0 <= j < ext.len() ==> ext[j] != '.'
            },
            None => forall|at: int| 0 < at < name.len() ==> name[at] != '.',
        },
{
    match extension(name) {
        Some(ext) => {
            let at = choose|at: int| at > 0 && is_final_dot(name, at);
            assert forall|j: int| 0 <= j < ext.len() implies ext[j] != '.' by {
                assert(ext[j] == name[at + 1 + j]);
            }
        },
        None => {
            assert forall|at: int| 0 < at < name.len() implies name[at] != '.' by {
                if name[at] == '.' {
                    let last = lemma_final_dot(name, at);
                    assert(last > 0 && is_final_dot(name, last));
                }
            }
        },
    }
}

/// The extension of the file name `name`.
pub fn extension_of(name: &[char]) -> (ext: Option<&[char]>)
    ensures
        match ext {
            Some(e) => extension(name@) == Some(e@),
            None => extension(name@) is None,
        },
{
    let len: usize = name.len();
    let mut after: usize = len;
    while after > 0 && name[after - 1] != '.'
        invariant
            after <= len,
            len == name@.len(),
            forall|j: int| after <= j < len ==> name@[j] != '.',
        decreases after,
    {
        after -= 1;
    }
    if after <= 1 {
        assert forall|at: int| at > 0 implies !is_final_dot(name@, at) by {}
        None
    } else {
        assert(is_final_dot(name@, after - 1));
        let ghost at = choose|at: int| at > 0 && is_final_dot(name@, at);
        assert(at == after - 1);
        let ext = slice_subrange(name, after, len);
        assert(ext@ =~= name@.skip(after as int));
        Some(ext)
    }
}

/// A listing, entry by entry, as plain mathematical values.
pub open spec fn listing(entries: Seq<Entry>) -> Seq<EntryView> {
    Seq::new(entries.len(), |i: int| entries[i]@)
}

/// The files that a walk through `entry` visits, in the order of the walk:
/// the entry itself where it is a file; where it is a directory, the files
/// under it, unless its name is one of `skip`.
pub open spec fn visited_in(entry: EntryView, skip: Seq<Seq<char>>) -> Seq<EntryView>
    decreases entry, 0nat,
{
    match entry {
        EntryView::Directory { name, path, children } => if skip.contains(name) {
            Seq::empty()
        } else {
            visited_among(children, children.len(), skip)
        },
        EntryView::File { .. } => seq![entry],
    }
}

/// The files that a walk visits through the first `n` entries of a listing.
pub open spec fn visited_among(entries: Seq<EntryView>, n: nat, skip: Seq<Seq<char>>) -> Seq<
    EntryView,
>
    decreases entries, n,
{
    if 0 < n <= entries.len() {
        visited_among(entries, (n - 1) as nat, skip) + visited_in(entries[n - 1], skip)
    } else {
        Seq::empty()
    }
}

/// The files that a walk through a whole listing visits. Directories are
/// walked depth first, in the order of the listing; one whose name is in
/// `skip` is not entered. Only a directory is ever skipped.
pub open spec fn visited(entries: Seq<EntryView>, skip: Seq<Seq<char>>) -> Seq<EntryView> {
    visited_among(entries, entries.len(), skip)
}

/// The views of the first `n` entries are the first `n` of the listing.
pub proof fn lemma_first_views(entries: Seq<Entry>, n: nat)
    requires
        n <= entries.len(),
    ensures
        first_views(entries, n) == listing(entries).take(n as int),
    decreases n,
{
    if n > 0 {
        lemma_first_views(entries, (n - 1) as nat);
        assert(listing(entries).take(n as int) =~= listing(entries).take(n - 1).push(
            entries[n - 1]@,
        ));
    } else {
        assert(listing(entries).take(0) =~= Seq::<EntryView>::empty());
    }
}

/// The view of a directory holds the views of its children.
pub proof fn lemma_directory_view(entry: Entry)
    requires
        entry is Directory,
    ensures
        entry@ == (EntryView::Directory {
            name: entry->Directory_name@,
            path: entry->Directory_path@,
            children: listing(entry->Directory_children@),
        }),
{
    let children = entry->Directory_children@;
    lemma_first_views(children, children.len());
    assert(listing(children).take(children.len() as int) =~= listing(children));
}

/// The texts of a sequence of strings.
pub open spec fn names(list: Seq<String>) -> Seq<Seq<char>> {
    Seq::new(list.len(), |i: int| list[i]@)
}

/// The entries that a sequence of references points to, as plain values.
pub open spec fn pointed(files: Seq<&Entry>) -> Seq<EntryView> {
    Seq::new(files.len(), |i: int| files[i]@)
}

/// Whether `name` is one of `list`.
pub fn is_listed(name: &String, list: &Vec<String>) -> (found: bool)
    ensures
        found == names(list@).contains(name@),
{
    let mut i: usize = 0;
    while i < list.len()
        invariant
            i <= list.len(),
            forall|j: int| 0 <= j < i ==> names(list@)[j] != name@,
        decreases list.len() - i,
    {
        if *name == list[i] {
            assert(names(list@)[i as int] == name@);
            return true;
        }
        i += 1;
    }
    false
}

/// Walks through `entries` and puts each file that the walk visits at the
/// end of `files`.
fn walk_into<'a>(entries: &'a Vec<Entry>, skip: &Vec<String>, files: &mut Vec<&'a Entry>)
    ensures
        pointed(final(files)@) == pointed(old(files)@) + visited(
            listing(entries@),
            names(skip@),
        ),
    decreases entries,
{
    let mut i: usize = 0;
    assert(pointed(files@) + Seq::<EntryView>::empty() =~= pointed(files@));
    while i < entries.len()
        invariant
            i <= entries.len(),
            pointed(files@) == pointed(old(files)@) + visited_among(
                listing(entries@),
                i as nat,
                names(skip@),
            ),
        decreases entries.len() - i,
    {
        let ghost before = pointed(files@);
        let ghost earlier = visited_among(listing(entries@), i as nat, names(skip@));
        let ghost here = visited_in(listing(entries@)[i as int], names(skip@));
        let entry = &entries[i];
        match entry {
            Entry::Directory { name, children, .. } => {
                proof {
                    lemma_directory_view(*entry);
                }
                if !is_listed(name, skip) {
                    walk_into(children, skip, files);
                }
            },
            Entry::File { .. } => {
                files.push(entry);
                assert(pointed(files@) =~= before + seq![entry@]);
            },
        }
        assert(pointed(files@) =~= before + here);
        assert(before + here =~= pointed(old(files)@) + (earlier + here));
        i += 1;
    }
}

/// The files that a walk through `entries` visits, in the order of the walk.
/// A directory whose name is in `skip` is not entered.
pub fn walk<'a>(entries: &'a Vec<Entry>, skip: &Vec<String>) -> (files: Vec<&'a Entry>)
    ensures
        pointed(files@) == visited(listing(entries@), names(skip@)),
{
    let mut files: Vec<&'a Entry> = Vec::new();
    walk_into(entries, skip, &mut files);
    assert(Seq::<EntryView>::empty() + visited(listing(entries@), names(skip@)) =~= visited(
        listing(entries@),
        names(skip@),
    ));
    files
}

} // verus!
