//! The files of an image, kept in path order.

use crate::text::comes_before;
use vstd::prelude::*;

verus! {

/// A file, directory or link of an image.
#[derive(Debug, PartialEq, Eq)]
pub struct FileEntry {
    /// Path of the entry in the image.
    pub path: String,
    /// What the file holds.
    pub content: Vec<u8>,
    /// Permission bits.
    pub mode: u32,
    /// The user that owns the entry.
    pub uid: u32,
    /// The group that owns the entry.
    pub gid: u32,
    /// Time of the last modification, in seconds since the epoch.
    pub mtime: i64,
    /// Whether the entry is a directory.
    pub is_dir: bool,
    /// Whether the entry is a symbolic link.
    pub is_symlink: bool,
    /// What a symbolic link points to.
    pub symlink_target: Option<String>,
}

/// Whether the entries stand in the lexicographic order of their paths, no path twice.
pub open spec fn in_path_order(entries: Seq<FileEntry>) -> bool {
    forall|i: int, j: int|
        0 <= i < j < entries.len() ==> crate::text::precedes(
            (#[trigger] entries[i]).path@,
            (#[trigger] entries[j]).path@,
        )
}

/// Whether entry `i` is that of `path`.
pub open spec fn is_entry_of(entries: Seq<FileEntry>, path: Seq<char>, i: int) -> bool {
    0 <= i < entries.len() && entries[i].path@ == path
}

/// The entries by their paths.
pub open spec fn files_in(entries: Seq<FileEntry>) -> Map<Seq<char>, FileEntry> {
    Map::new(
        |path: Seq<char>| exists|i: int| is_entry_of(entries, path, i),
        |path: Seq<char>| entries[choose|i: int| is_entry_of(entries, path, i)],
    )
}

/// The files of an image by their paths, kept in path order.
#[derive(Debug, PartialEq, Eq)]
pub struct FileTree {
    /// The files in the lexicographic order of their paths, no path twice.
    pub entries: Vec<FileEntry>,
}

/// Every entry is found under its path.
pub proof fn lemma_files_in(entries: Seq<FileEntry>, i: int)
    requires
        in_path_order(entries),
        0 <= i < entries.len(),
    ensures
        files_in(entries).contains_key(entries[i].path@),
        files_in(entries)[entries[i].path@] == entries[i],
{
    let path = entries[i].path@;
    assert(is_entry_of(entries, path, i));
    let k = choose|k: int| is_entry_of(entries, path, k);
    crate::text::lemma_precedes_irreflexive(path);
}

impl FileTree {
    /// Whether the entries stand in path order, no path twice.
    pub open spec fn well_formed(&self) -> bool {
        in_path_order(self.entries@)
    }

    /// The files by their paths.
    pub open spec fn files(&self) -> Map<Seq<char>, FileEntry> {
        files_in(self.entries@)
    }

    /// Returns a tree without a file.
    pub fn new() -> (tree: Self)
        ensures
            tree.well_formed(),
            tree.files() == Map::<Seq<char>, FileEntry>::empty(),
    {
        let tree: FileTree = FileTree { entries: Vec::new() };
        assert(tree.files() =~= Map::<Seq<char>, FileEntry>::empty());
        tree
    }

    /// Returns how many entries come before `path`.
    fn position(&self, path: &str) -> (position: usize)
        requires
            self.well_formed(),
        ensures
            position <= self.entries@.len(),
            forall|k: int|
                0 <= k < self.entries@.len() ==> (crate::text::precedes(
                    (#[trigger] self.entries@[k]).path@,
                    path@,
                ) <==> k < position),
    {
        let mut low: usize = 0;
        let mut high: usize = self.entries.len();
        while low < high
            invariant
                self.well_formed(),
                low <= high <= self.entries@.len(),
                forall|k: int|
                    0 <= k < low ==> crate::text::precedes(
                        (#[trigger] self.entries@[k]).path@,
                        path@,
                    ),
                forall|k: int|
                    high <= k < self.entries@.len() ==> !crate::text::precedes(
                        (#[trigger] self.entries@[k]).path@,
                        path@,
                    ),
            decreases high - low,
        {
            let middle: usize = low + (high - low) / 2;
            let ghost entry = self.entries@[middle as int];
            if comes_before(&self.entries[middle].path, path) {
                assert forall|k: int| 0 <= k <= middle implies crate::text::precedes(
                    (#[trigger] self.entries@[k]).path@,
                    path@,
                ) by {
                    if k < middle {
                        crate::text::lemma_precedes_transitive(
                            self.entries@[k].path@,
                            entry.path@,
                            path@,
                        );
                    }
                }
                low = middle + 1;
            } else {
                assert forall|k: int|
                    middle <= k < self.entries@.len() implies !crate::text::precedes(
                    (#[trigger] self.entries@[k]).path@,
                    path@,
                ) by {
                    if k > middle && crate::text::precedes(self.entries@[k].path@, path@) {
                        crate::text::lemma_precedes_transitive(
                            entry.path@,
                            self.entries@[k].path@,
                            path@,
                        );
                    }
                }
                high = middle;
            }
        }
        low
    }

    /// Puts `entry` under its path, in place of what was there.
    pub fn insert(&mut self, entry: FileEntry)
        requires
            old(self).well_formed(),
        ensures
            final(self).well_formed(),
            final(self).files() == old(self).files().insert(entry.path@, entry),
    {
        let position: usize = self.position(&entry.path);
        let ghost before = self.entries@;
        let ghost path = entry.path@;
        if position < self.entries.len() && self.entries[position].path == entry.path {
            self.entries.set(position, entry);
            let ghost after = self.entries@;
            assert(in_path_order(after));
            assert forall|p: Seq<char>| files_in(after).contains_key(p) == files_in(before).insert(
                path,
                entry,
            ).contains_key(p) by {
                assert(is_entry_of(after, path, position as int));
                if files_in(before).contains_key(p) {
                    let i = choose|i: int| is_entry_of(before, p, i);
                    assert(is_entry_of(after, p, i));
                }
                if files_in(after).contains_key(p) {
                    let i = choose|i: int| is_entry_of(after, p, i);
                    assert(is_entry_of(before, p, i));
                }
            }
            assert forall|p: Seq<char>| #[trigger]
                files_in(after).contains_key(p) implies files_in(after)[p] == files_in(
                before,
            ).insert(path, entry)[p] by {
                let i = choose|i: int| is_entry_of(after, p, i);
                lemma_files_in(after, i);
                lemma_files_in(before, i);
            }
            assert(files_in(after) =~= files_in(before).insert(path, entry));
        } else {
            self.entries.insert(position, entry);
            let ghost after = self.entries@;
            proof {
                lemma_insertion(before, entry, position as int);
            }
        }
    }
}

/// An entry put in at its place keeps the order and adds the entry to the files.
proof fn lemma_insertion(entries: Seq<FileEntry>, entry: FileEntry, at: int)
    requires
        in_path_order(entries),
        0 <= at <= entries.len(),
        forall|k: int|
            0 <= k < entries.len() ==> (crate::text::precedes(
                (#[trigger] entries[k]).path@,
                entry.path@,
            ) <==> k < at),
        at < entries.len() ==> entries[at].path@ != entry.path@,
    ensures
        in_path_order(entries.insert(at, entry)),
        files_in(entries.insert(at, entry)) == files_in(entries).insert(entry.path@, entry),
{
    let after = entries.insert(at, entry);
    let path = entry.path@;
    assert forall|k: int| at <= k < entries.len() implies crate::text::precedes(
        path,
        (#[trigger] entries[k]).path@,
    ) by {
        crate::text::lemma_precedes_total(entries[k].path@, path);
        if at < k {
            assert(crate::text::precedes(entries[at].path@, entries[k].path@));
        }
    }
    assert forall|i: int, j: int| 0 <= i < j < after.len() implies crate::text::precedes(
        (#[trigger] after[i]).path@,
        (#[trigger] after[j]).path@,
    ) by {
        if i < at && j > at {
            assert(crate::text::precedes(entries[i].path@, entries[j - 1].path@));
        } else if i > at {
            assert(crate::text::precedes(entries[i - 1].path@, entries[j - 1].path@));
        } else if j < at {
            assert(crate::text::precedes(entries[i].path@, entries[j].path@));
        } else if i == at {
            assert(after[j] == entries[j - 1]);
        }
    }
    assert forall|p: Seq<char>| files_in(after).contains_key(p) == files_in(entries).insert(
        path,
        entry,
    ).contains_key(p) by {
        assert(is_entry_of(after, path, at));
        if files_in(entries).contains_key(p) {
            let i = choose|i: int| is_entry_of(entries, p, i);
            assert(is_entry_of(after, p, if i < at { i } else { i + 1 }));
        }
        if files_in(after).contains_key(p) {
            let i = choose|i: int| is_entry_of(after, p, i);
            if i != at {
                assert(is_entry_of(entries, p, if i < at { i } else { i - 1 }));
            }
        }
    }
    assert forall|p: Seq<char>| #[trigger] files_in(after).contains_key(p) implies files_in(
        after,
    )[p] == files_in(entries).insert(path, entry)[p] by {
        let i = choose|i: int| is_entry_of(after, p, i);
        lemma_files_in(after, i);
        if i < at {
            lemma_files_in(entries, i);
            crate::text::lemma_precedes_irreflexive(path);
        } else if i > at {
            lemma_files_in(entries, i - 1);
            crate::text::lemma_precedes_irreflexive(path);
        }
    }
    assert(files_in(after) =~= files_in(entries).insert(path, entry));
}

/// The last entry is the only one that leaves with the last entry.
proof fn lemma_without_last(entries: Seq<FileEntry>)
    requires
        in_path_order(entries),
        entries.len() > 0,
    ensures
        in_path_order(entries.drop_last()),
        files_in(entries.drop_last()) == files_in(entries).remove(entries.last().path@),
{
    let rest = entries.drop_last();
    let last = entries.last().path@;
    assert(in_path_order(rest));
    assert forall|p: Seq<char>| files_in(rest).contains_key(p) == files_in(entries).remove(
        last,
    ).contains_key(p) by {
        if files_in(rest).contains_key(p) {
            let i = choose|i: int| is_entry_of(rest, p, i);
            assert(is_entry_of(entries, p, i));
            assert(crate::text::precedes(
                entries[i].path@,
                entries[entries.len() - 1].path@,
            ));
            crate::text::lemma_precedes_irreflexive(last);
        }
        if files_in(entries).contains_key(p) && p != last {
            let i = choose|i: int| is_entry_of(entries, p, i);
            assert(is_entry_of(rest, p, i));
        }
    }
    assert forall|p: Seq<char>| #[trigger] files_in(rest).contains_key(p) implies files_in(
        rest,
    )[p] == files_in(entries).remove(last)[p] by {
        let i = choose|i: int| is_entry_of(rest, p, i);
        lemma_files_in(rest, i);
        lemma_files_in(entries, i);
    }
    assert(files_in(rest) =~= files_in(entries).remove(last));
}

/// The files alone determine in what order they are listed: two trees with the same files have
/// the same entries, in whatever order the files were put in.
pub proof fn law_files_determine_the_listing(a: Seq<FileEntry>, b: Seq<FileEntry>)
    requires
        in_path_order(a),
        in_path_order(b),
        files_in(a) == files_in(b),
    ensures
        a == b,
    decreases a.len(),
{
    if a.len() == 0 || b.len() == 0 {
        if a.len() > 0 {
            lemma_files_in(a, 0);
            let i = choose|i: int| is_entry_of(b, a[0].path@, i);
        }
        if b.len() > 0 {
            lemma_files_in(b, 0);
            let i = choose|i: int| is_entry_of(a, b[0].path@, i);
        }
        assert(a =~= b);
    } else {
        lemma_files_in(a, a.len() - 1);
        lemma_files_in(b, b.len() - 1);
        let in_b = choose|i: int| is_entry_of(b, a.last().path@, i);
        let in_a = choose|i: int| is_entry_of(a, b.last().path@, i);
        if a.last().path@ != b.last().path@ {
            assert(crate::text::precedes(b[in_b].path@, b[b.len() - 1].path@));
            assert(crate::text::precedes(a[in_a].path@, a[a.len() - 1].path@));
            crate::text::lemma_precedes_transitive(
                a.last().path@,
                b.last().path@,
                a.last().path@,
            );
            crate::text::lemma_precedes_irreflexive(a.last().path@);
        }
        assert(a.last() == b.last());
        lemma_without_last(a);
        lemma_without_last(b);
        law_files_determine_the_listing(a.drop_last(), b.drop_last());
        assert(a =~= a.drop_last().push(a.last()));
        assert(b =~= b.drop_last().push(b.last()));
    }
}

/// The files of a tree are its entries: a path has a file exactly if some entry has that path, and
/// each entry is the file of its path.
pub proof fn law_files_are_the_entries(tree: FileTree, path: Seq<char>)
    requires
        tree.well_formed(),
    ensures
        tree.files().contains_key(path) <==> exists|i: int|
            0 <= i < tree.entries@.len() && (#[trigger] tree.entries@[i]).path@ == path,
        forall|i: int|
            0 <= i < tree.entries@.len() ==> tree.files()[(#[trigger] tree.entries@[i]).path@]
                == tree.entries@[i],
{
    if tree.files().contains_key(path) {
        let i = choose|i: int| is_entry_of(tree.entries@, path, i);
        assert(tree.entries@[i].path@ == path);
    }
    if exists|i: int| 0 <= i < tree.entries@.len() && (#[trigger] tree.entries@[i]).path@ == path {
        let i = choose|i: int|
            0 <= i < tree.entries@.len() && (#[trigger] tree.entries@[i]).path@ == path;
        assert(is_entry_of(tree.entries@, path, i));
    }
    assert forall|i: int| 0 <= i < tree.entries@.len() implies tree.files()[(
    #[trigger] tree.entries@[i]).path@] == tree.entries@[i] by {
        lemma_files_in(tree.entries@, i);
    }
}

} // verus!
