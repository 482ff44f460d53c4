//! What holds of a volume between operations: the directory graph is a tree
//! below the root, names are unique within a directory, and data blocks
//! belong to regular files.

use vstd::prelude::*;
use crate::disk::{lemma_first_index, lemma_first_index_some, DiskView};
use crate::fs::{
    create_reply, create_volume, mkdir_has_room, mkdir_volume, new_directory, new_file,
    rename_volume, rmdir_volume, write_volume,
};
use crate::inode::{empty_references, FileTypeDef, InodeView, TimespecDef, MAX_FILES_DIRECTORY};
use crate::names::trim;

verus! {

impl DiskView {
    /// Whether `ino` is a present directory.
    pub open spec fn is_dir(self, ino: int) -> bool {
        self.present(ino) && self.inode(ino).attributes.kind == FileTypeDef::Directory
    }

    /// Whether `ino` is a present regular file.
    pub open spec fn is_file(self, ino: int) -> bool {
        self.present(ino) && self.inode(ino).attributes.kind == FileTypeDef::RegularFile
    }

    /// What reference slot `s` of inode `ino` holds.
    pub open spec fn reference(self, ino: int, s: int) -> Option<usize> {
        self.inode(ino).references[s]
    }

    /// Whether reference slot `s` of the directory `dir` holds `child`.
    pub open spec fn links(self, dir: int, s: int, child: int) -> bool {
        &&& self.is_dir(dir)
        &&& 0 <= s < self.inode(dir).references.len()
        &&& self.reference(dir, s).is_some()
        &&& self.reference(dir, s).unwrap() == child
    }

    /// Whether the regular file `file` names data block `block` as its body.
    pub open spec fn owns(self, file: int, block: int) -> bool {
        &&& self.is_file(file)
        &&& self.reference(file, 0).is_some()
        &&& self.reference(file, 0).unwrap() == block
    }

    /// The first slot of the table holds the root directory.
    pub open spec fn root_present(self) -> bool {
        self.is_dir(1)
    }

    /// Every reference of a directory names a present inode.
    pub open spec fn links_resolve(self) -> bool {
        forall|dir: int, s: int, child: int| #[trigger]
            self.links(dir, s, child) ==> self.present(child)
    }

    /// No inode is referred to from two reference slots of directories, and
    /// the root from none.
    pub open spec fn is_tree(self) -> bool {
        &&& forall|d1: int, s1: int, d2: int, s2: int, child: int|
            #[trigger] self.links(d1, s1, child) && #[trigger] self.links(d2, s2, child) ==> d1
                == d2 && s1 == s2
        &&& forall|dir: int, s: int| !#[trigger] self.links(dir, s, 1)
    }

    /// Every regular file names a present data block as its body.
    pub open spec fn files_have_blocks(self) -> bool {
        forall|file: int| #[trigger]
            self.is_file(file) ==> {
                &&& self.reference(file, 0).is_some()
                &&& self.reference(file, 0).unwrap() < self.blocks.len()
                &&& self.blocks[self.reference(file, 0).unwrap() as int].is_some()
            }
    }

    /// A data block is present exactly where a regular file names it as its
    /// body.
    pub open spec fn blocks_are_owned(self) -> bool {
        forall|block: int|
            0 <= block < self.blocks.len() ==> ((#[trigger] self.blocks[block]).is_some()
                <==> exists|file: int| #[trigger] self.owns(file, block))
    }

    /// Within a directory no two children carry the same name, the
    /// whitespace around the names left aside.
    pub open spec fn names_unique(self) -> bool {
        forall|dir: int, s1: int, c1: int, s2: int, c2: int|
            #[trigger] self.links(dir, s1, c1) && #[trigger] self.links(dir, s2, c2) && s1 != s2
                && self.present(c1) && self.present(c2) ==> trim(self.inode(c1).name) != trim(
                self.inode(c2).name,
            )
    }

    /// The directory graph is sound: the volume is well formed, holds its
    /// root, and its directories form a tree of present inodes.
    pub open spec fn graph_sound(self) -> bool {
        &&& self.wf()
        &&& self.root_present()
        &&& self.links_resolve()
        &&& self.is_tree()
    }

    /// The block pool is sound: every regular file has its block, and every
    /// present block its file.
    pub open spec fn blocks_sound(self) -> bool {
        &&& self.files_have_blocks()
        &&& self.blocks_are_owned()
    }

    /// Everything that holds of a volume between operations.
    pub open spec fn sound(self) -> bool {
        &&& self.graph_sound()
        &&& self.names_unique()
        &&& self.blocks_sound()
    }

    /// No child of `parent` carries `name`, the whitespace around the names
    /// left aside.
    pub open spec fn name_is_free(self, parent: int, name: Seq<u8>) -> bool {
        forall|s: int, child: int| #[trigger]
            self.links(parent, s, child) && self.present(child) ==> trim(self.inode(child).name)
                != trim(name)
    }

    /// No child of `parent` but `child` carries `name`, the whitespace
    /// around the names left aside.
    pub open spec fn name_is_free_beside(
        self,
        parent: int,
        child: Option<int>,
        name: Seq<u8>,
    ) -> bool {
        forall|s: int, other: int| #[trigger]
            self.links(parent, s, other) && self.present(other) && Some(other) != child ==> trim(
                self.inode(other).name,
            ) != trim(name)
    }

    /// Some regular file names data block `block` as its body.
    pub open spec fn block_has_owner(self, block: int) -> bool {
        exists|file: int| #[trigger] self.owns(file, block)
    }

    /// Every data block that `child` names as its body is also named by
    /// another regular file. This holds of every inode that is no regular
    /// file.
    pub open spec fn shares_blocks(self, child: int) -> bool {
        forall|block: int| #[trigger]
            self.owns(child, block) ==> exists|other: int|
                other != child && #[trigger] self.owns(other, block)
    }

    /// The child of `parent` that `name` resolves to, if there is one,
    /// shares its blocks.
    pub open spec fn child_shares_blocks(self, parent: int, name: Seq<u8>) -> bool {
        match self.find_child(parent, trim(name)) {
            Some(child) => self.shares_blocks(child),
            None => true,
        }
    }
}

/// A fresh volume is sound: one whose only inode is a root directory
/// without references and whose blocks are all absent.
pub proof fn lemma_fresh_volume_sound(d: DiskView)
    requires
        d.wf(),
        d.inodes[0].is_some(),
        d.inodes[0].unwrap().attributes.kind == FileTypeDef::Directory,
        d.inodes[0].unwrap().references == empty_references(),
        forall|i: int| 1 <= i < d.inodes.len() ==> d.inodes[i].is_none(),
        forall|i: int| 0 <= i < d.blocks.len() ==> d.blocks[i].is_none(),
    ensures
        d.sound(),
{
    assert forall|dir: int, s: int, child: int| !#[trigger] d.links(dir, s, child) by {
        if d.is_dir(dir) {
            assert(dir == 1);
        }
    }
    assert forall|file: int| !#[trigger] d.is_file(file) by {
        if d.present(file) {
            assert(file == 1);
        }
    }
}

/// Renaming a child keeps the directory graph and the block pool sound. It
/// keeps names unique where no other child of a directory that holds the
/// child carries the new name.
pub proof fn lemma_rename_keeps_sound(d: DiskView, parent: int, name: Seq<u8>, newname: Seq<u8>)
    requires
        d.wf(),
        d.present(parent),
        d.references_resolve(parent),
    ensures
        d.graph_sound() ==> rename_volume(d, parent, name, newname).graph_sound(),
        d.blocks_sound() ==> rename_volume(d, parent, name, newname).blocks_sound(),
        d.graph_sound() && d.names_unique() && d.is_dir(parent) && d.name_is_free_beside(
            parent,
            d.find_child(parent, trim(name)),
            newname,
        ) ==> rename_volume(d, parent, name, newname).names_unique(),
{
    let after = rename_volume(d, parent, name, newname);
    match d.find_child(parent, trim(name)) {
        Some(child) => {
            lemma_first_index(
                0,
                d.inode(parent).references.len() as int,
                |s: int| d.names_child(parent, s, trim(name)),
            );
            let slot = d.child_slot(parent, trim(name)).unwrap();
            assert(d.present(child));
            assert forall|dir: int, s: int, c: int| after.links(dir, s, c) == d.links(
                dir,
                s,
                c,
            ) by {}
            assert forall|i: int| after.present(i) == d.present(i) by {}
            assert forall|f: int, b: int| after.owns(f, b) == d.owns(f, b) by {}
            assert forall|f: int| after.is_file(f) == d.is_file(f) by {}
            if d.graph_sound() {
                assert(after.wf());
                assert(after.root_present());
                assert(after.links_resolve()) by {
                    assert forall|dir: int, s: int, c: int| #[trigger]
                        after.links(dir, s, c) implies after.present(c) by {
                        assert(d.links(dir, s, c));
                    }
                }
                assert(after.is_tree()) by {
                    assert forall|d1: int, s1: int, d2: int, s2: int, c: int|
                        #[trigger] after.links(d1, s1, c) && #[trigger] after.links(
                            d2,
                            s2,
                            c,
                        ) implies d1 == d2 && s1 == s2 by {
                        assert(d.links(d1, s1, c) && d.links(d2, s2, c));
                    }
                    assert forall|dir: int, s: int| !#[trigger] after.links(dir, s, 1) by {
                        assert(!d.links(dir, s, 1));
                    }
                }
            }
            if d.blocks_sound() {
                assert(after.files_have_blocks()) by {
                    assert forall|file: int| #[trigger] after.is_file(file) implies {
                        &&& after.reference(file, 0).is_some()
                        &&& after.reference(file, 0).unwrap() < after.blocks.len()
                        &&& after.blocks[after.reference(file, 0).unwrap() as int].is_some()
                    } by {
                        assert(d.is_file(file));
                    }
                }
                assert(after.blocks_are_owned()) by {
                    assert forall|block: int| 0 <= block < after.blocks.len() implies ((
                    #[trigger] after.blocks[block]).is_some() <==> exists|file: int| #[trigger]
                        after.owns(file, block)) by {
                        assert(d.blocks[block] == after.blocks[block]);
                        if d.blocks[block].is_some() {
                            let f = choose|f: int| #[trigger] d.owns(f, block);
                            assert(after.owns(f, block));
                        }
                        if exists|file: int| #[trigger] after.owns(file, block) {
                            let f = choose|f: int| #[trigger] after.owns(f, block);
                            assert(d.owns(f, block));
                        }
                    }
                }
            }
            if d.graph_sound() && d.names_unique() && d.is_dir(parent) && d.name_is_free_beside(
                parent,
                d.find_child(parent, trim(name)),
                newname,
            ) {
                assert(d.links(parent, slot, child));
                assert forall|dir: int, s1: int, c1: int, s2: int, c2: int|
                    #[trigger] after.links(dir, s1, c1) && #[trigger] after.links(dir, s2, c2)
                        && s1 != s2 && after.present(c1) && after.present(c2) implies trim(
                    after.inode(c1).name,
                ) != trim(after.inode(c2).name) by {
                    assert(d.links(dir, s1, c1) && d.links(dir, s2, c2));
                    assert(c1 != c2);
                    if c1 == child {
                        assert(dir == parent);
                    } else if c2 == child {
                        assert(dir == parent);
                    }
                }
            }
        },
        None => {},
    }
}

/// Writing a body keeps the directory graph sound and names unique. It
/// keeps the block pool sound where the block that is written belongs to a
/// regular file.
pub proof fn lemma_write_keeps_sound(d: DiskView, ino: int, data: Seq<u8>)
    requires
        d.wf(),
        d.present(ino) ==> ino <= d.blocks.len(),
    ensures
        d.graph_sound() ==> write_volume(d, ino, data).graph_sound(),
        d.names_unique() ==> write_volume(d, ino, data).names_unique(),
        d.blocks_sound() && (d.present(ino) ==> d.block_has_owner(ino - 1)) ==> write_volume(
            d,
            ino,
            data,
        ).blocks_sound(),
{
    let after = write_volume(d, ino, data);
    if d.present(ino) {
        assert forall|dir: int, s: int, c: int| after.links(dir, s, c) == d.links(dir, s, c) by {}
        assert forall|i: int| after.present(i) == d.present(i) by {}
        assert forall|f: int, b: int| after.owns(f, b) == d.owns(f, b) by {}
        assert forall|f: int| after.is_file(f) == d.is_file(f) by {}
        assert forall|i: int| d.present(i) implies after.inode(i).name == d.inode(i).name by {}
        if d.graph_sound() {
            assert(after.links_resolve()) by {
                assert forall|dir: int, s: int, c: int| #[trigger]
                    after.links(dir, s, c) implies after.present(c) by {
                    assert(d.links(dir, s, c));
                }
            }
            assert(after.is_tree()) by {
                assert forall|d1: int, s1: int, d2: int, s2: int, c: int|
                    #[trigger] after.links(d1, s1, c) && #[trigger] after.links(
                        d2,
                        s2,
                        c,
                    ) implies d1 == d2 && s1 == s2 by {
                    assert(d.links(d1, s1, c) && d.links(d2, s2, c));
                }
                assert forall|dir: int, s: int| !#[trigger] after.links(dir, s, 1) by {
                    assert(!d.links(dir, s, 1));
                }
            }
        }
        if d.names_unique() {
            assert forall|dir: int, s1: int, c1: int, s2: int, c2: int|
                #[trigger] after.links(dir, s1, c1) && #[trigger] after.links(dir, s2, c2) && s1
                    != s2 && after.present(c1) && after.present(c2) implies trim(
                after.inode(c1).name,
            ) != trim(after.inode(c2).name) by {
                assert(d.links(dir, s1, c1) && d.links(dir, s2, c2));
            }
        }
        if d.blocks_sound() && d.block_has_owner(ino - 1) {
            let owner = choose|file: int| #[trigger] d.owns(file, ino - 1);
            assert(after.files_have_blocks()) by {
                assert forall|file: int| #[trigger] after.is_file(file) implies {
                    &&& after.reference(file, 0).is_some()
                    &&& after.reference(file, 0).unwrap() < after.blocks.len()
                    &&& after.blocks[after.reference(file, 0).unwrap() as int].is_some()
                } by {
                    assert(d.is_file(file));
                }
            }
            assert(after.blocks_are_owned()) by {
                assert forall|block: int| 0 <= block < after.blocks.len() implies ((
                #[trigger] after.blocks[block]).is_some() <==> exists|file: int| #[trigger]
                    after.owns(file, block)) by {
                    if block == ino - 1 {
                        assert(after.owns(owner, block));
                    } else {
                        assert(d.blocks[block] == after.blocks[block]);
                        if d.blocks[block].is_some() {
                            let f = choose|f: int| #[trigger] d.owns(f, block);
                            assert(after.owns(f, block));
                        }
                        if exists|file: int| #[trigger] after.owns(file, block) {
                            let f = choose|f: int| #[trigger] after.owns(f, block);
                            assert(d.owns(f, block));
                        }
                    }
                }
            }
        }
    }
}

/// Making a directory keeps the directory graph and the block pool sound.
/// It keeps names unique where no child of the parent carries the new name.
pub proof fn lemma_mkdir_keeps_sound(
    d: DiskView,
    parent: int,
    name: Seq<u8>,
    now: TimespecDef,
    uid: u32,
    gid: u32,
)
    requires
        d.wf(),
        d.present(parent),
    ensures
        d.graph_sound() ==> mkdir_volume(d, parent, name, now, uid, gid).graph_sound(),
        d.graph_sound() && d.names_unique() && d.name_is_free(parent, name) ==> mkdir_volume(
            d,
            parent,
            name,
            now,
            uid,
            gid,
        ).names_unique(),
        d.blocks_sound() ==> mkdir_volume(d, parent, name, now, uid, gid).blocks_sound(),
{
    let after = mkdir_volume(d, parent, name, now, uid, gid);
    if mkdir_has_room(d, parent, name, now, uid, gid) {
        let ino = d.first_free_slot().unwrap() + 1;
        let slot = d.free_reference_slot(parent).unwrap();
        let refs = d.inode(parent).references;
        lemma_first_index(
            0,
            d.inodes.len() - 1,
            |i: int| 0 <= i < d.inodes.len() && d.inodes[i].is_none(),
        );
        lemma_first_index(0, refs.len() as int, |s: int| 0 <= s < refs.len() && refs[s].is_none());
        let fresh = new_directory(ino as u64, name, now, uid, gid);
        let mid = d.with_inode(ino, Some(fresh));
        assert(!d.present(ino));
        assert(ino != parent);
        assert(mid.inode(parent) == d.inode(parent));
        assert((ino as usize) as int == ino);
        lemma_link_added(d, after, parent, slot, ino, fresh);
        lemma_add_keeps_sound(d, after, parent, slot, ino, fresh);
        if d.graph_sound() && d.names_unique() && d.name_is_free(parent, name) {
            lemma_add_keeps_names(d, after, parent, slot, ino, fresh);
        }
    }
}

/// How a volume `after` relates to the volume `d` from which it was made by
/// putting the inode `fresh` into the empty slot `ino` and the number `ino`
/// into the empty reference slot `slot` of `parent`.
pub open spec fn child_added(
    d: DiskView,
    after: DiskView,
    parent: int,
    slot: int,
    ino: int,
    fresh: InodeView,
) -> bool {
    &&& d.wf()
    &&& d.present(parent)
    &&& d.in_table(ino)
    &&& !d.present(ino)
    &&& ino <= usize::MAX
    &&& fresh.attributes.ino == ino
    &&& fresh.references.len() == MAX_FILES_DIRECTORY
    &&& 0 <= slot < d.inode(parent).references.len()
    &&& d.inode(parent).references[slot].is_none()
    &&& after.inodes == d.with_inode(ino, Some(fresh)).with_reference(
        parent,
        slot,
        Some(ino as usize),
    ).inodes
    &&& after.blocks.len() == d.blocks.len()
    &&& after.max_files == d.max_files
    &&& after.block_size == d.block_size
}

/// After a child was added, the inodes are those of before and the child;
/// the parent differs in the one reference slot only.
pub proof fn lemma_link_added(
    d: DiskView,
    after: DiskView,
    parent: int,
    slot: int,
    ino: int,
    fresh: InodeView,
)
    requires
        child_added(d, after, parent, slot, ino, fresh),
    ensures
        after.wf(),
        forall|i: int| after.present(i) == (d.present(i) || i == ino),
        after.inode(ino) == fresh,
        forall|i: int| d.present(i) && i != parent ==> after.inode(i) == d.inode(i),
        after.inode(parent).name == d.inode(parent).name,
        after.inode(parent).attributes == d.inode(parent).attributes,
        after.inode(parent).references == d.inode(parent).references.update(
            slot,
            Some(ino as usize),
        ),
{
    let mid = d.with_inode(ino, Some(fresh));
    assert(mid.inode(parent) == d.inode(parent));
}

/// Adding a directory without references, or a regular file, below a parent
/// keeps the directory graph sound; adding an inode that is no regular file
/// keeps the block pool sound.
pub proof fn lemma_add_keeps_sound(
    d: DiskView,
    after: DiskView,
    parent: int,
    slot: int,
    ino: int,
    fresh: InodeView,
)
    requires
        child_added(d, after, parent, slot, ino, fresh),
        fresh.attributes.kind == FileTypeDef::Directory ==> fresh.references
            == empty_references(),
    ensures
        d.graph_sound() ==> after.graph_sound(),
        d.blocks_sound() && after.blocks == d.blocks && fresh.attributes.kind
            != FileTypeDef::RegularFile ==> after.blocks_sound(),
{
    lemma_link_added(d, after, parent, slot, ino, fresh);
    assert forall|dir: int, s: int, c: int| #[trigger]
        after.links(dir, s, c) implies d.links(dir, s, c) || (dir == parent && s == slot && c
        == ino) by {
        if dir == ino {
            assert(fresh.references[s].is_none());
        }
    }
    assert forall|dir: int, s: int, c: int| #[trigger]
        d.links(dir, s, c) implies after.links(dir, s, c) by {}
    if d.graph_sound() {
        assert(ino != 1);
        assert(after.root_present());
        assert(after.links_resolve()) by {
            assert forall|dir: int, s: int, c: int| #[trigger]
                after.links(dir, s, c) implies after.present(c) by {
                if d.links(dir, s, c) {
                    assert(d.present(c));
                }
            }
        }
        assert(after.is_tree()) by {
            assert forall|d1: int, s1: int, d2: int, s2: int, c: int|
                #[trigger] after.links(d1, s1, c) && #[trigger] after.links(
                    d2,
                    s2,
                    c,
                ) implies d1 == d2 && s1 == s2 by {
                if d.links(d1, s1, c) {
                    assert(d.present(c));
                }
                if d.links(d2, s2, c) {
                    assert(d.present(c));
                }
            }
            assert forall|dir: int, s: int| !#[trigger] after.links(dir, s, 1) by {
                assert(!d.links(dir, s, 1));
            }
        }
    }
    if d.blocks_sound() && after.blocks == d.blocks && fresh.attributes.kind
        != FileTypeDef::RegularFile {
        assert forall|f: int| after.is_file(f) == d.is_file(f) by {}
        assert forall|f: int, b: int| after.owns(f, b) == d.owns(f, b) by {
            if d.is_file(f) && f == parent {
                assert(d.reference(f, 0).is_some());
                assert(slot != 0);
            }
        }
        assert(after.files_have_blocks()) by {
            assert forall|file: int| #[trigger] after.is_file(file) implies {
                &&& after.reference(file, 0).is_some()
                &&& after.reference(file, 0).unwrap() < after.blocks.len()
                &&& after.blocks[after.reference(file, 0).unwrap() as int].is_some()
            } by {
                assert(d.is_file(file));
                if file == parent {
                    assert(slot != 0);
                }
            }
        }
        assert(after.blocks_are_owned()) by {
            assert forall|block: int| 0 <= block < after.blocks.len() implies ((
            #[trigger] after.blocks[block]).is_some() <==> exists|file: int| #[trigger]
                after.owns(file, block)) by {
                if d.blocks[block].is_some() {
                    let f = choose|f: int| #[trigger] d.owns(f, block);
                    assert(after.owns(f, block));
                }
                if exists|file: int| #[trigger] after.owns(file, block) {
                    let f = choose|f: int| #[trigger] after.owns(f, block);
                    assert(d.owns(f, block));
                }
            }
        }
    }
}

/// Adding a child below a parent keeps names unique where no child of the
/// parent carries the child's name.
pub proof fn lemma_add_keeps_names(
    d: DiskView,
    after: DiskView,
    parent: int,
    slot: int,
    ino: int,
    fresh: InodeView,
)
    requires
        child_added(d, after, parent, slot, ino, fresh),
        fresh.attributes.kind == FileTypeDef::Directory ==> fresh.references
            == empty_references(),
        d.graph_sound(),
        d.names_unique(),
        d.name_is_free(parent, fresh.name),
    ensures
        after.names_unique(),
{
    lemma_link_added(d, after, parent, slot, ino, fresh);
    assert forall|dir: int, s: int, c: int| #[trigger]
        after.links(dir, s, c) implies d.links(dir, s, c) || (dir == parent && s == slot && c
        == ino) by {
        if dir == ino {
            assert(fresh.references[s].is_none());
        }
    }
    assert forall|dir: int, s1: int, c1: int, s2: int, c2: int|
        #[trigger] after.links(dir, s1, c1) && #[trigger] after.links(dir, s2, c2) && s1 != s2
            && after.present(c1) && after.present(c2) implies trim(after.inode(c1).name) != trim(
        after.inode(c2).name,
    ) by {
        if d.links(dir, s1, c1) {
            assert(d.present(c1));
            assert(c1 != ino);
        }
        if d.links(dir, s2, c2) {
            assert(d.present(c2));
            assert(c2 != ino);
        }
        if d.links(dir, s1, c1) && d.links(dir, s2, c2) {
            assert(c1 != c2);
            assert(after.inode(c1).name == d.inode(c1).name);
            assert(after.inode(c2).name == d.inode(c2).name);
        }
    }
}

/// Creating a file keeps the directory graph and the block pool sound. It
/// keeps names unique where no child of the parent carries the new name.
pub proof fn lemma_create_keeps_sound(
    d: DiskView,
    parent: int,
    name: Seq<u8>,
    flags: u32,
    now: TimespecDef,
    uid: u32,
    gid: u32,
)
    requires
        d.wf(),
        d.present(parent),
    ensures
        d.graph_sound() ==> create_volume(d, parent, name, flags, now, uid, gid).graph_sound(),
        d.graph_sound() && d.names_unique() && d.name_is_free(parent, name) ==> create_volume(
            d,
            parent,
            name,
            flags,
            now,
            uid,
            gid,
        ).names_unique(),
        d.blocks_sound() ==> create_volume(d, parent, name, flags, now, uid, gid).blocks_sound(),
{
    let after = create_volume(d, parent, name, flags, now, uid, gid);
    if create_reply(d, parent, name, flags, now, uid, gid).is_ok() {
        let ino = d.first_free_slot().unwrap() + 1;
        let block = d.first_free_block().unwrap();
        let slot = d.free_reference_slot(parent).unwrap();
        let refs = d.inode(parent).references;
        lemma_first_index(
            0,
            d.inodes.len() - 1,
            |i: int| 0 <= i < d.inodes.len() && d.inodes[i].is_none(),
        );
        lemma_first_index(
            0,
            d.blocks.len() - 1,
            |i: int| 0 <= i < d.blocks.len() && d.blocks[i].is_none(),
        );
        lemma_first_index(0, refs.len() as int, |s: int| 0 <= s < refs.len() && refs[s].is_none());
        let fresh = new_file(ino as u64, name, block as usize, now, uid, gid, flags);
        let mid = d.with_inode(ino, Some(fresh)).with_block(block, Some(Seq::empty()));
        assert(!d.present(ino));
        assert(mid.inode(parent) == d.inode(parent));
        assert((ino as usize) as int == ino);
        assert((block as usize) as int == block);
        lemma_link_added(d, after, parent, slot, ino, fresh);
        lemma_add_keeps_sound(d, after, parent, slot, ino, fresh);
        if d.graph_sound() && d.names_unique() && d.name_is_free(parent, name) {
            lemma_add_keeps_names(d, after, parent, slot, ino, fresh);
        }
        if d.blocks_sound() {
            assert(after.blocks == d.blocks.update(block, Some(Seq::<u8>::empty())));
            assert forall|f: int, b: int| #[trigger] d.owns(f, b) implies after.owns(f, b) by {
                if f == parent {
                    assert(d.is_file(f));
                    assert(slot != 0);
                }
            }
            assert forall|f: int, b: int| #[trigger] after.owns(f, b) implies d.owns(f, b) || (f
                == ino && b == block) by {
                if f != ino {
                    assert(d.is_file(f));
                    if f == parent {
                        assert(d.reference(f, 0).is_some());
                        assert(slot != 0);
                    }
                }
            }
            assert(after.owns(ino, block));
            assert(after.files_have_blocks()) by {
                assert forall|file: int| #[trigger] after.is_file(file) implies {
                    &&& after.reference(file, 0).is_some()
                    &&& after.reference(file, 0).unwrap() < after.blocks.len()
                    &&& after.blocks[after.reference(file, 0).unwrap() as int].is_some()
                } by {
                    if file != ino {
                        assert(d.is_file(file));
                        if file == parent {
                            assert(slot != 0);
                        }
                    }
                }
            }
            assert(after.blocks_are_owned()) by {
                assert forall|b: int| 0 <= b < after.blocks.len() implies ((
                #[trigger] after.blocks[b]).is_some() <==> exists|file: int| #[trigger]
                    after.owns(file, b)) by {
                    if b != block {
                        if d.blocks[b].is_some() {
                            let f = choose|f: int| #[trigger] d.owns(f, b);
                            assert(after.owns(f, b));
                        }
                        if exists|file: int| #[trigger] after.owns(file, b) {
                            let f = choose|f: int| #[trigger] after.owns(f, b);
                            assert(d.owns(f, b));
                        }
                    }
                }
            }
        }
    }
}

/// Removing a child of a directory keeps the directory graph sound and
/// names unique. It keeps the block pool sound where the child is not the
/// only regular file that names its data block.
pub proof fn lemma_rmdir_keeps_sound(d: DiskView, parent: int, name: Seq<u8>)
    requires
        d.wf(),
        d.present(parent),
        d.references_resolve(parent),
    ensures
        d.graph_sound() && d.is_dir(parent) ==> rmdir_volume(d, parent, name).graph_sound(),
        d.names_unique() ==> rmdir_volume(d, parent, name).names_unique(),
        d.blocks_sound() && d.is_dir(parent) && d.child_shares_blocks(parent, name)
            ==> rmdir_volume(d, parent, name).blocks_sound(),
{
    let after = rmdir_volume(d, parent, name);
    match d.find_child(parent, trim(name)) {
        Some(child) => {
            let refs = d.inode(parent).references;
            lemma_first_index(0, refs.len() as int, |s: int| d.names_child(parent, s, trim(name)));
            let found = d.child_slot(parent, trim(name)).unwrap();
            assert(refs[found] == Some(child as usize));
            assert(d.present(child));
            let holds = |k: int| 0 <= k < refs.len() && refs[k] == Some(child as usize);
            lemma_first_index_some(0, refs.len() as int, holds, found);
            lemma_first_index(0, refs.len() as int, holds);
            let slot = d.reference_slot_of(parent, child as usize).unwrap();
            assert(refs[slot] == Some(child as usize));
            let mid = d.with_reference(parent, slot, None);
            assert(after == mid.with_inode(child, None));
            assert(after.wf());
            assert forall|i: int| after.present(i) == (d.present(i) && i != child) by {}
            assert forall|i: int| after.present(i) && i != parent implies after.inode(i)
                == d.inode(i) by {}
            if parent != child {
                assert(after.inode(parent).name == d.inode(parent).name);
                assert(after.inode(parent).attributes == d.inode(parent).attributes);
                assert(after.inode(parent).references == refs.update(slot, None));
            }
            assert forall|dir: int, s: int, c: int| #[trigger]
                after.links(dir, s, c) implies d.links(dir, s, c) && dir != child && !(dir
                == parent && s == slot) by {}
            assert forall|dir: int, s: int, c: int|
                d.links(dir, s, c) && dir != child && !(dir == parent && s
                    == slot) implies #[trigger] after.links(dir, s, c) by {}
            if d.graph_sound() && d.is_dir(parent) {
                assert(d.links(parent, slot, child));
                assert(child != 1);
                assert(after.root_present());
                assert(after.links_resolve()) by {
                    assert forall|dir: int, s: int, c: int| #[trigger]
                        after.links(dir, s, c) implies after.present(c) by {
                        assert(d.links(dir, s, c));
                        assert(d.present(c));
                        if c == child {
                            assert(dir == parent && s == slot);
                        }
                    }
                }
                assert(after.is_tree()) by {
                    assert forall|d1: int, s1: int, d2: int, s2: int, c: int|
                        #[trigger] after.links(d1, s1, c) && #[trigger] after.links(
                            d2,
                            s2,
                            c,
                        ) implies d1 == d2 && s1 == s2 by {
                        assert(d.links(d1, s1, c) && d.links(d2, s2, c));
                    }
                    assert forall|dir: int, s: int| !#[trigger] after.links(dir, s, 1) by {
                        assert(!d.links(dir, s, 1));
                    }
                }
            }
            if d.names_unique() {
                assert forall|dir: int, s1: int, c1: int, s2: int, c2: int|
                    #[trigger] after.links(dir, s1, c1) && #[trigger] after.links(dir, s2, c2)
                        && s1 != s2 && after.present(c1) && after.present(c2) implies trim(
                    after.inode(c1).name,
                ) != trim(after.inode(c2).name) by {
                    assert(d.links(dir, s1, c1) && d.links(dir, s2, c2));
                    assert(after.inode(c1).name == d.inode(c1).name);
                    assert(after.inode(c2).name == d.inode(c2).name);
                }
            }
            if d.blocks_sound() && d.is_dir(parent) && d.shares_blocks(child) {
                assert forall|f: int, b: int| after.owns(f, b) == (d.owns(f, b) && f
                    != child) by {}
                assert(after.files_have_blocks()) by {
                    assert forall|file: int| #[trigger] after.is_file(file) implies {
                        &&& after.reference(file, 0).is_some()
                        &&& after.reference(file, 0).unwrap() < after.blocks.len()
                        &&& after.blocks[after.reference(file, 0).unwrap() as int].is_some()
                    } by {
                        assert(d.is_file(file));
                    }
                }
                assert(after.blocks_are_owned()) by {
                    assert forall|b: int| 0 <= b < after.blocks.len() implies ((
                    #[trigger] after.blocks[b]).is_some() <==> exists|file: int| #[trigger]
                        after.owns(file, b)) by {
                        if d.blocks[b].is_some() {
                            let f = choose|f: int| #[trigger] d.owns(f, b);
                            if f == child {
                                let other = choose|other: int|
                                    other != child && #[trigger] d.owns(other, b);
                                assert(after.owns(other, b));
                            } else {
                                assert(after.owns(f, b));
                            }
                        }
                        if exists|file: int| #[trigger] after.owns(file, b) {
                            let f = choose|f: int| #[trigger] after.owns(f, b);
                            assert(d.owns(f, b));
                        }
                    }
                }
            }
        },
        None => {},
    }
}

} // verus!
