//! Sorting the members of a container export into file trees, and laying a tree out on disk.

use crate::file_tree::{FileEntry, FileTree};
use crate::text::{contains, starts_with, trim_leading_slashes};
use std::collections::VecDeque;
use vstd::prelude::*;

verus! {

/// The modification time of every extracted file: 2022-01-01 00:00:00 UTC.
pub const DETERMINISTIC_TIMESTAMP: i64 = 1640995200;

/// The permission bits of a member whose header does not say.
pub const DEFAULT_MODE: u32 = 0o644;

/// A member of the archive that a container was exported to.
#[derive(Debug, PartialEq, Eq)]
pub struct ArchiveMember {
    /// Path of the member.
    pub path: String,
    /// What the member holds.
    pub content: Vec<u8>,
    /// Permission bits, where the header says.
    pub mode: Option<u32>,
    /// The owning user, where the header says.
    pub uid: Option<u64>,
    /// The owning group, where the header says.
    pub gid: Option<u64>,
    /// Whether the member is a directory.
    pub is_dir: bool,
    /// Whether the member is a symbolic link.
    pub is_symlink: bool,
    /// The name that the header gives for a link to point to.
    pub link_name: Option<String>,
}

/// Whether a path belongs to the container's runtime and not to the image.
pub open spec fn is_runtime_path(path: Seq<char>) -> bool {
    ||| crate::text::occurs_in(path, ".dockerenv"@)
    ||| crate::text::occurs_in(path, "/proc/"@)
    ||| crate::text::occurs_in(path, "/sys/"@)
    ||| crate::text::occurs_in(path, "/dev/"@)
    ||| crate::text::occurs_in(path, "/run/"@)
    ||| crate::text::occurs_in(path, "/tmp/"@)
}

/// Returns whether a path is left out of the extraction: those that belong to the container's
/// runtime and not to the image.
pub fn should_skip_path(path: &str) -> (skip: bool)
    ensures
        skip == is_runtime_path(path@),
{
    contains(path, ".dockerenv") || contains(path, "/proc/") || contains(path, "/sys/") || contains(
        path,
        "/dev/",
    ) || contains(path, "/run/") || contains(path, "/tmp/")
}

/// A path as it is seen from the root of the image: an archive names its members without the
/// slash in front.
pub open spec fn from_root(path: Seq<char>) -> Seq<char> {
    if path.len() > 0 && path[0] == '/' {
        path
    } else {
        seq!['/'] + path
    }
}

/// Whether a path, seen from the root of the image, begins with `prefix`.
pub open spec fn is_below(path: Seq<char>, prefix: Seq<char>) -> bool {
    crate::text::occurs_at(from_root(path), prefix, 0)
}

/// Whether a path is a system path, which base images bring.
pub open spec fn is_system_path(path: Seq<char>) -> bool {
    ||| is_below(path, "/bin/"@)
    ||| is_below(path, "/sbin/"@)
    ||| is_below(path, "/lib/"@)
    ||| is_below(path, "/lib64/"@)
    ||| is_below(path, "/usr/bin/"@)
    ||| is_below(path, "/usr/sbin/"@)
    ||| is_below(path, "/usr/lib/"@)
    ||| is_below(path, "/etc/passwd"@)
    ||| is_below(path, "/etc/group"@)
    ||| is_below(path, "/etc/shadow"@)
    ||| is_below(path, "/etc/ld.so.cache"@)
    ||| is_below(path, "/etc/ssl/"@)
    ||| is_below(path, "/etc/ca-certificates/"@)
}

/// Returns whether a file likely comes from the base image: whether its path, with or without the
/// slash in front, is a system path.
pub fn is_likely_base_file(path: &str) -> (base: bool)
    ensures
        base == is_system_path(path@),
{
    let mut rooted: String = String::new();
    if !starts_with(path, "/") {
        rooted.push('/');
    }
    rooted.append(path);
    proof {
        reveal_strlit("/");
        if path@.len() > 0 {
            assert(path@.subrange(0, 1)[0] == path@[0]);
            if path@[0] == '/' {
                assert(path@.subrange(0, 1) =~= "/"@);
            }
        }
        assert(rooted@ =~= from_root(path@));
    }
    let path: &str = rooted.as_str();
    starts_with(path, "/bin/")
        || starts_with(path, "/sbin/")
        || starts_with(path, "/lib/")
        || starts_with(path, "/lib64/")
        || starts_with(path, "/usr/bin/")
        || starts_with(path, "/usr/sbin/")
        || starts_with(path, "/usr/lib/")
        || starts_with(path, "/etc/passwd")
        || starts_with(path, "/etc/group")
        || starts_with(path, "/etc/shadow")
        || starts_with(path, "/etc/ld.so.cache")
        || starts_with(path, "/etc/ssl/")
        || starts_with(path, "/etc/ca-certificates/")
}

/// An owner as a file entry keeps it: the low 32 bits of what the header says, or root.
pub open spec fn owner_id(id: Option<u64>) -> u32 {
    match id {
        Some(id) => (id % 0x1_0000_0000) as u32,
        None => 0,
    }
}

/// The file entry that a member becomes.
pub open spec fn entry_of(member: ArchiveMember) -> FileEntry {
    FileEntry {
        path: member.path,
        content: member.content,
        mode: match member.mode {
            Some(mode) => mode,
            None => DEFAULT_MODE,
        },
        uid: owner_id(member.uid),
        gid: owner_id(member.gid),
        mtime: DETERMINISTIC_TIMESTAMP,
        is_dir: member.is_dir,
        is_symlink: member.is_symlink,
        symlink_target: if member.is_symlink {
            member.link_name
        } else {
            None
        },
    }
}

fn owner(id: Option<u64>) -> (owner: u32)
    ensures
        owner == owner_id(id),
{
    match id {
        Some(id) => (id % 0x1_0000_0000) as u32,
        None => 0,
    }
}

/// Returns the file entry that a member becomes.
pub fn file_entry(member: ArchiveMember) -> (entry: FileEntry)
    ensures
        entry == entry_of(member),
{
    FileEntry {
        path: member.path,
        content: member.content,
        mode: match member.mode {
            Some(mode) => mode,
            None => DEFAULT_MODE,
        },
        uid: owner(member.uid),
        gid: owner(member.gid),
        mtime: DETERMINISTIC_TIMESTAMP,
        is_dir: member.is_dir,
        is_symlink: member.is_symlink,
        symlink_target: if member.is_symlink {
            member.link_name
        } else {
            None
        },
    }
}

/// The files that the members of an archive give the base tree, or the additional one: those of
/// the paths that belong there, a later member in place of an earlier one of the same path.
pub open spec fn files_of(members: Seq<ArchiveMember>, base: bool) -> Map<Seq<char>, FileEntry>
    decreases members.len(),
{
    if members.len() == 0 {
        Map::empty()
    } else {
        let files = files_of(members.drop_last(), base);
        let member = members.last();
        if !is_runtime_path(member.path@) && is_system_path(member.path@) == base {
            files.insert(member.path@, entry_of(member))
        } else {
            files
        }
    }
}

/// Sorts the members of an archive, given in the archive's order, into the files of the base
/// image and the additional files. Paths of the container's runtime are left out.
pub fn extract_layers(members: VecDeque<ArchiveMember>) -> (trees: (FileTree, FileTree))
    ensures
        trees.0.well_formed(),
        trees.0.files() == files_of(members@, true),
        trees.1.well_formed(),
        trees.1.files() == files_of(members@, false),
{
    let mut rest: VecDeque<ArchiveMember> = members;
    let mut base_files: FileTree = FileTree::new();
    let mut additional_files: FileTree = FileTree::new();
    let ghost all = members@;
    let ghost mut done: int = 0;
    assert(all.take(0) =~= Seq::<ArchiveMember>::empty());
    assert(all.skip(0) =~= all);
    while rest.len() > 0
        invariant
            0 <= done <= all.len(),
            rest@ == all.skip(done),
            base_files.well_formed(),
            base_files.files() == files_of(all.take(done), true),
            additional_files.well_formed(),
            additional_files.files() == files_of(all.take(done), false),
        decreases rest@.len(),
    {
        let next: Option<ArchiveMember> = rest.pop_front();
        proof {
            assert(all.take(done + 1).drop_last() =~= all.take(done));
            assert(all.take(done + 1).last() == all[done]);
            assert(rest@ =~= all.skip(done + 1));
            done = done + 1;
        }
        if let Some(member) = next {
            if !should_skip_path(&member.path) {
                if is_likely_base_file(&member.path) {
                    base_files.insert(file_entry(member));
                } else {
                    additional_files.insert(file_entry(member));
                }
            }
        }
    }
    assert(all.take(done) =~= all);
    (base_files, additional_files)
}

/// A path of the container's runtime is in neither tree, and every other path of the archive is
/// in exactly one: a system path in the base tree, any other path in the additional one.
pub proof fn law_every_path_has_one_tree(members: Seq<ArchiveMember>, path: Seq<char>)
    ensures
        files_of(members, true).contains_key(path) <==> !is_runtime_path(path) && is_system_path(
            path,
        ) && exists|i: int| 0 <= i < members.len() && (#[trigger] members[i]).path@ == path,
        files_of(members, false).contains_key(path) <==> !is_runtime_path(path) && !is_system_path(
            path,
        ) && exists|i: int| 0 <= i < members.len() && (#[trigger] members[i]).path@ == path,
    decreases members.len(),
{
    if members.len() > 0 {
        let rest = members.drop_last();
        law_every_path_has_one_tree(rest, path);
        assert(forall|i: int| 0 <= i < rest.len() ==> rest[i] == #[trigger] members[i]);
        assert(members.last() == members[members.len() - 1]);
        if exists|i: int| 0 <= i < rest.len() && (#[trigger] rest[i]).path@ == path {
            let i = choose|i: int| 0 <= i < rest.len() && (#[trigger] rest[i]).path@ == path;
            assert(members[i].path@ == path);
        }
        if exists|i: int| 0 <= i < members.len() && (#[trigger] members[i]).path@ == path {
            let i = choose|i: int| 0 <= i < members.len() && (#[trigger] members[i]).path@ == path;
            if i < rest.len() {
                assert(rest[i].path@ == path);
            }
        }
    }
}

/// Of the members with one path the last counts.
pub proof fn law_last_member_counts(members: Seq<ArchiveMember>, base: bool, i: int)
    requires
        0 <= i < members.len(),
        forall|j: int| i < j < members.len() ==> (#[trigger] members[j]).path@ != members[i].path@,
    ensures
        files_of(members, base).contains_key(members[i].path@) ==> files_of(
            members,
            base,
        )[members[i].path@] == entry_of(members[i]),
    decreases members.len(),
{
    let rest = members.drop_last();
    if i < members.len() - 1 {
        assert(members[members.len() - 1].path@ != members[i].path@);
        assert(rest[i] == members[i]);
        assert(forall|j: int| i < j < rest.len() ==> rest[j] == #[trigger] members[j]);
        law_last_member_counts(rest, base, i);
    } else {
        law_every_path_has_one_tree(members, members[i].path@);
    }
}

/// No path occurs twice among the members.
pub open spec fn paths_are_unique(members: Seq<ArchiveMember>) -> bool {
    forall|i: int, j: int|
        0 <= i < j < members.len() ==> (#[trigger] members[i]).path@ != (
        #[trigger] members[j]).path@
}

/// An extraction does not depend on the order of the archive: two archives with the same members,
/// no path twice, give the same files.
pub proof fn law_order_of_members_does_not_matter(
    a: Seq<ArchiveMember>,
    b: Seq<ArchiveMember>,
    base: bool,
)
    requires
        paths_are_unique(a),
        paths_are_unique(b),
        forall|member: ArchiveMember| a.contains(member) <==> b.contains(member),
    ensures
        files_of(a, base) == files_of(b, base),
{
    assert forall|path: Seq<char>|
        #![trigger files_of(a, base).contains_key(path)]
        #![trigger files_of(b, base).contains_key(path)]
        files_of(a, base).contains_key(path) == files_of(b, base).contains_key(path) && (files_of(
            a,
            base,
        ).contains_key(path) ==> files_of(a, base)[path] == files_of(b, base)[path]) by {
        lemma_files_of_members(a, b, base, path);
        lemma_files_of_members(b, a, base, path);
    }
    assert(files_of(a, base) =~= files_of(b, base));
}

/// A file of one archive is a file of the other, where the other has all the members of the one.
proof fn lemma_files_of_members(
    a: Seq<ArchiveMember>,
    b: Seq<ArchiveMember>,
    base: bool,
    path: Seq<char>,
)
    requires
        paths_are_unique(a),
        paths_are_unique(b),
        forall|member: ArchiveMember| a.contains(member) ==> b.contains(member),
    ensures
        files_of(a, base).contains_key(path) ==> files_of(b, base).contains_key(path) && files_of(
            a,
            base,
        )[path] == files_of(b, base)[path],
{
    if files_of(a, base).contains_key(path) {
        law_every_path_has_one_tree(a, path);
        law_every_path_has_one_tree(b, path);
        let i = choose|i: int| 0 <= i < a.len() && (#[trigger] a[i]).path@ == path;
        assert(a.contains(a[i]));
        let j = choose|j: int| 0 <= j < b.len() && b[j] == a[i];
        assert(b[j].path@ == path);
        law_last_member_counts(a, base, i);
        law_last_member_counts(b, base, j);
    }
}

/// Every extracted file carries the one fixed timestamp, and is found under its own path.
pub proof fn law_timestamps_are_fixed(
    members: Seq<ArchiveMember>,
    base: bool,
    path: Seq<char>,
)
    requires
        files_of(members, base).contains_key(path),
    ensures
        files_of(members, base)[path].mtime == DETERMINISTIC_TIMESTAMP,
        files_of(members, base)[path].path@ == path,
    decreases members.len(),
{
    if members.len() > 0 && files_of(members.drop_last(), base).contains_key(path) {
        law_timestamps_are_fixed(members.drop_last(), base, path);
    }
}

/// What stands at a path on disk.
#[derive(Debug, PartialEq, Eq)]
pub enum NodeKind<'a> {
    /// A directory.
    Directory,
    /// A symbolic link; nothing is made where its target is not known.
    Symlink(Option<&'a String>),
    /// A file with its content.
    Regular(&'a Vec<u8>),
}

/// One entry of a file system as it is laid out on disk. The directories above it are made
/// first, its permissions are set last. A link has no permissions of its own: to set some would
/// change what it points to. Where a link is not made for want of a target, there is nothing to
/// set permissions of, and the layout fails at that.
#[derive(Debug, PartialEq, Eq)]
pub struct FsNode<'a> {
    /// Where the entry goes, relative to the root of the file system.
    pub relative_path: String,
    /// What is made there.
    pub kind: NodeKind<'a>,
    /// The permission bits to set; none for a link that is made.
    pub mode: Option<u32>,
    /// The modification time to set, in seconds since the epoch.
    pub mtime: i64,
}

impl<'a> FsNode<'a> {
    /// Whether this is how `entry` is laid out: under its path without the leading slashes, as a
    /// directory, a link or a file, with its time and, but for a link with a target, its
    /// permissions.
    pub open spec fn lays_out(self, entry: FileEntry) -> bool {
        &&& self.relative_path@ == crate::text::without_leading_slashes(entry.path@)
        &&& self.mtime == entry.mtime
        &&& match self.kind {
            NodeKind::Directory => entry.is_dir && self.mode == Some(entry.mode),
            NodeKind::Symlink(target) => {
                &&& !entry.is_dir && entry.is_symlink
                &&& match target {
                    Some(target) => entry.symlink_target == Some(*target) && self.mode is None,
                    None => entry.symlink_target is None && self.mode == Some(entry.mode),
                }
            },
            NodeKind::Regular(content) => {
                &&& !entry.is_dir && !entry.is_symlink
                &&& self.mode == Some(entry.mode)
                &&& *content == entry.content
            },
        }
    }
}

fn fs_node<'a>(entry: &'a FileEntry) -> (node: FsNode<'a>)
    ensures
        node.lays_out(*entry),
{
    let (kind, mode): (NodeKind<'a>, Option<u32>) = if entry.is_dir {
        (NodeKind::Directory, Some(entry.mode))
    } else if entry.is_symlink {
        match &entry.symlink_target {
            Some(target) => (NodeKind::Symlink(Some(target)), None),
            None => (NodeKind::Symlink(None), Some(entry.mode)),
        }
    } else {
        (NodeKind::Regular(&entry.content), Some(entry.mode))
    };
    FsNode {
        relative_path: trim_leading_slashes(&entry.path),
        kind,
        mode,
        mtime: entry.mtime,
    }
}

/// Returns the entries of the file system that holds `files`, in the lexicographic order of
/// their paths, in which they are to be made.
pub fn create_deterministic_filesystem<'a>(files: &'a FileTree) -> (nodes: Vec<FsNode<'a>>)
    ensures
        nodes@.len() == files.entries@.len(),
        forall|i: int|
            0 <= i < nodes@.len() ==> (#[trigger] nodes@[i]).lays_out(files.entries@[i]),
{
    let mut nodes: Vec<FsNode<'a>> = Vec::new();
    let mut i: usize = 0;
    while i < files.entries.len()
        invariant
            i == nodes@.len(),
            i <= files.entries@.len(),
            forall|k: int| 0 <= k < i ==> (#[trigger] nodes@[k]).lays_out(files.entries@[k]),
        decreases files.entries@.len() - i,
    {
        nodes.push(fs_node(&files.entries[i]));
        i += 1;
    }
    nodes
}

/// Two trees with the same files are laid out alike, entry by entry.
pub proof fn law_same_files_same_filesystem(
    a: FileTree,
    b: FileTree,
    a_nodes: Seq<FsNode>,
    b_nodes: Seq<FsNode>,
    i: int,
)
    requires
        a.well_formed(),
        b.well_formed(),
        a.files() == b.files(),
        a_nodes.len() == a.entries@.len(),
        forall|k: int| 0 <= k < a_nodes.len() ==> (#[trigger] a_nodes[k]).lays_out(a.entries@[k]),
        b_nodes.len() == b.entries@.len(),
        forall|k: int| 0 <= k < b_nodes.len() ==> (#[trigger] b_nodes[k]).lays_out(b.entries@[k]),
        0 <= i < a_nodes.len(),
    ensures
        a_nodes.len() == b_nodes.len(),
        a_nodes[i].relative_path@ == b_nodes[i].relative_path@,
        a_nodes[i].kind == b_nodes[i].kind,
        a_nodes[i].mode == b_nodes[i].mode,
        a_nodes[i].mtime == b_nodes[i].mtime,
{
    crate::file_tree::law_files_determine_the_listing(a.entries@, b.entries@);
    assert(a_nodes[i].lays_out(a.entries@[i]));
    assert(b_nodes[i].lays_out(b.entries@[i]));
}

/// What the extraction leaves out, and where it puts the rest. A path that has one of the texts
/// `.dockerenv`, `/proc/`, `/sys/`, `/dev/`, `/run/` and `/tmp/` in it is in neither tree. Any
/// other path of the archive is in exactly one of them: in the base tree where it begins, seen from
/// the root, like a system path, in the additional tree otherwise. A path that the archive does not
/// have is in neither.
pub proof fn law_only_runtime_paths_are_left_out(members: Seq<ArchiveMember>, path: Seq<char>)
    ensures
        ({
            let in_base = files_of(members, true).contains_key(path);
            let in_additional = files_of(members, false).contains_key(path);
            let in_archive = exists|i: int|
                0 <= i < members.len() && (#[trigger] members[i]).path@ == path;
            let of_runtime = {
                ||| crate::text::has_part(path, ".dockerenv"@)
                ||| crate::text::has_part(path, "/proc/"@)
                ||| crate::text::has_part(path, "/sys/"@)
                ||| crate::text::has_part(path, "/dev/"@)
                ||| crate::text::has_part(path, "/run/"@)
                ||| crate::text::has_part(path, "/tmp/"@)
            };
            let rooted = if path.len() > 0 && path[0] == '/' {
                path
            } else {
                seq!['/'] + path
            };
            let of_system = {
                ||| crate::text::has_start(rooted, "/bin/"@)
                ||| crate::text::has_start(rooted, "/sbin/"@)
                ||| crate::text::has_start(rooted, "/lib/"@)
                ||| crate::text::has_start(rooted, "/lib64/"@)
                ||| crate::text::has_start(rooted, "/usr/bin/"@)
                ||| crate::text::has_start(rooted, "/usr/sbin/"@)
                ||| crate::text::has_start(rooted, "/usr/lib/"@)
                ||| crate::text::has_start(rooted, "/etc/passwd"@)
                ||| crate::text::has_start(rooted, "/etc/group"@)
                ||| crate::text::has_start(rooted, "/etc/shadow"@)
                ||| crate::text::has_start(rooted, "/etc/ld.so.cache"@)
                ||| crate::text::has_start(rooted, "/etc/ssl/"@)
                ||| crate::text::has_start(rooted, "/etc/ca-certificates/"@)
            };
            &&& in_base <==> in_archive && !of_runtime && of_system
            &&& in_additional <==> in_archive && !of_runtime && !of_system
        }),
{
    let rooted = from_root(path);
    law_every_path_has_one_tree(members, path);
    crate::text::law_patterns_are_found(path, ".dockerenv"@);
    crate::text::law_patterns_are_found(path, "/proc/"@);
    crate::text::law_patterns_are_found(path, "/sys/"@);
    crate::text::law_patterns_are_found(path, "/dev/"@);
    crate::text::law_patterns_are_found(path, "/run/"@);
    crate::text::law_patterns_are_found(path, "/tmp/"@);
    crate::text::law_patterns_are_found(rooted, "/bin/"@);
    crate::text::law_patterns_are_found(rooted, "/sbin/"@);
    crate::text::law_patterns_are_found(rooted, "/lib/"@);
    crate::text::law_patterns_are_found(rooted, "/lib64/"@);
    crate::text::law_patterns_are_found(rooted, "/usr/bin/"@);
    crate::text::law_patterns_are_found(rooted, "/usr/sbin/"@);
    crate::text::law_patterns_are_found(rooted, "/usr/lib/"@);
    crate::text::law_patterns_are_found(rooted, "/etc/passwd"@);
    crate::text::law_patterns_are_found(rooted, "/etc/group"@);
    crate::text::law_patterns_are_found(rooted, "/etc/shadow"@);
    crate::text::law_patterns_are_found(rooted, "/etc/ld.so.cache"@);
    crate::text::law_patterns_are_found(rooted, "/etc/ssl/"@);
    crate::text::law_patterns_are_found(rooted, "/etc/ca-certificates/"@);
}

/// A file entry is its member: the path, the content and the kind of the member, the permission
/// bits and the owner that its header gives, and for a link the name that it points to. A header
/// that does not say gives 0644 and root, an owner keeps its low 32 bits, and the time is always
/// 2022-01-01 00:00:00 UTC.
pub proof fn law_entry_is_its_member(member: ArchiveMember)
    ensures
        entry_of(member).path == member.path,
        entry_of(member).content == member.content,
        member.mode is Some ==> entry_of(member).mode == member.mode->0,
        member.mode is None ==> entry_of(member).mode == 420,
        member.uid is Some ==> entry_of(member).uid == member.uid->0 as int % 4294967296,
        member.uid is None ==> entry_of(member).uid == 0,
        member.gid is Some ==> entry_of(member).gid == member.gid->0 as int % 4294967296,
        member.gid is None ==> entry_of(member).gid == 0,
        entry_of(member).mtime == 1640995200,
        entry_of(member).is_dir == member.is_dir,
        entry_of(member).is_symlink == member.is_symlink,
        member.is_symlink ==> entry_of(member).symlink_target == member.link_name,
        !member.is_symlink ==> entry_of(member).symlink_target is None,
{
}

/// How a file of a tree is laid out: where its path without the leading slashes says, with its
/// time; a directory as a directory, a link as a link to its target, anything else as a file with
/// its content; and with its permission bits, but for a link that has a target.
pub proof fn law_layout_is_the_entry(node: FsNode, entry: FileEntry) -> (slashes: Seq<char>)
    requires
        node.lays_out(entry),
    ensures
        entry.path@ == slashes + node.relative_path@,
        forall|i: int| 0 <= i < slashes.len() ==> #[trigger] slashes[i] == '/',
        node.relative_path@.len() > 0 ==> node.relative_path@[0] != '/',
        node.mtime == entry.mtime,
        node.kind is Directory <==> entry.is_dir,
        node.kind is Symlink <==> !entry.is_dir && entry.is_symlink,
        node.kind is Regular <==> !entry.is_dir && !entry.is_symlink,
        node.kind matches NodeKind::Regular(content) ==> content@ == entry.content@,
        node.kind matches NodeKind::Symlink(target) ==> (target is Some
            <==> entry.symlink_target is Some) && (target is Some ==> target->0@
            == entry.symlink_target->0@),
        node.mode is None <==> !entry.is_dir && entry.is_symlink && entry.symlink_target is Some,
        node.mode is Some ==> node.mode->0 == entry.mode,
{
    crate::text::law_only_leading_slashes_are_trimmed(entry.path@)
}

/// The files of a tree are laid out in the lexicographic order of their paths, which begin to
/// differ at some position.
pub proof fn law_layout_is_in_path_order(files: FileTree, i: int, j: int) -> (n: int)
    requires
        files.well_formed(),
        0 <= i < j < files.entries@.len(),
    ensures
        crate::text::is_smaller_from(files.entries@[i].path@, files.entries@[j].path@, n),
{
    let a = files.entries@[i].path@;
    let b = files.entries@[j].path@;
    crate::text::law_order_is_lexicographic(a, b);
    choose|n: int| crate::text::is_smaller_from(a, b, n)
}

} // verus!
