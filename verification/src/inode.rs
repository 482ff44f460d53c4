//! The inode record and the plain attribute types it is made of.

use vstd::prelude::*;

verus! {

/// Number of reference slots that every inode carries.
pub const MAX_FILES_DIRECTORY: usize = 64;

/// Longest file name reported to the host.
pub const NAMELEN: u32 = 64;

/// Permission bits given to every inode at creation.
pub const DEFAULT_PERM: u16 = 0o755;

/// A point in time: seconds and nanoseconds.
#[derive(Clone, Copy, Debug, PartialEq, Eq, Structural)]
pub struct TimespecDef {
    pub sec: i64,
    pub nsec: i32,
}

/// The kind of a filesystem object. The volume itself only ever creates
/// directories and regular files.
#[derive(Clone, Copy, Debug, PartialEq, Eq, Structural)]
pub enum FileTypeDef {
    NamedPipe,
    CharDevice,
    BlockDevice,
    Directory,
    RegularFile,
    Symlink,
    Socket,
}

/// The attribute block of an inode.
#[derive(Clone, Copy, Debug, PartialEq, Eq, Structural)]
pub struct FileAttrDef {
    pub ino: u64,
    pub size: u64,
    pub blocks: u64,
    pub atime: TimespecDef,
    pub mtime: TimespecDef,
    pub ctime: TimespecDef,
    pub crtime: TimespecDef,
    pub kind: FileTypeDef,
    pub perm: u16,
    pub nlink: u32,
    pub uid: u32,
    pub gid: u32,
    pub rdev: u32,
    pub flags: u32,
}

/// The administrative record of one filesystem object.
///
/// For a directory each present reference is the number of a child inode; for
/// a regular file reference 0 is the index of its data block.
#[derive(Debug)]
pub struct Inode {
    pub name: Vec<u8>,
    pub attributes: FileAttrDef,
    pub references: Vec<Option<usize>>,
}

/// The mathematical value of an inode.
pub struct InodeView {
    pub name: Seq<u8>,
    pub attributes: FileAttrDef,
    pub references: Seq<Option<usize>>,
}

impl View for Inode {
    type V = InodeView;

    open spec fn view(&self) -> InodeView {
        InodeView { name: self.name@, attributes: self.attributes, references: self.references@ }
    }
}

impl InodeView {
    /// An inode is well formed when it carries exactly the fixed number of
    /// reference slots and a number of at least 1.
    pub open spec fn wf(self) -> bool {
        &&& self.references.len() == MAX_FILES_DIRECTORY
        &&& self.attributes.ino >= 1
    }
}

/// The references of a fresh inode: every slot absent.
pub open spec fn empty_references() -> Seq<Option<usize>> {
    Seq::new(MAX_FILES_DIRECTORY as nat, |i: int| None::<usize>)
}

/// The number of blocks that an inode is stamped with when it is made. A
/// directory is empty when it is made and counts no block; anything else
/// counts the one block of its body.
///
/// The count is a stamp: no operation changes it afterwards, so a directory,
/// the root like any other, keeps its 0 when it gains children.
pub open spec fn stamped_blocks(kind: FileTypeDef) -> u64 {
    if kind == FileTypeDef::Directory {
        0
    } else {
        1
    }
}

/// The attributes that a fresh inode is stamped with.
pub open spec fn fresh_attributes(
    ino: u64,
    kind: FileTypeDef,
    now: TimespecDef,
    uid: u32,
    gid: u32,
    flags: u32,
) -> FileAttrDef {
    FileAttrDef {
        ino,
        size: 0,
        blocks: stamped_blocks(kind),
        atime: now,
        mtime: now,
        ctime: now,
        crtime: now,
        kind,
        perm: DEFAULT_PERM,
        nlink: 0,
        uid,
        gid,
        rdev: 0,
        flags,
    }
}

/// Stamps the attributes of a fresh inode: size 0, the blocks that its kind
/// counts, all four times `now`, the default permissions, and the owner.
pub fn stamp_attributes(
    ino: u64,
    kind: FileTypeDef,
    now: TimespecDef,
    uid: u32,
    gid: u32,
    flags: u32,
) -> (attributes: FileAttrDef)
    ensures
        attributes == fresh_attributes(ino, kind, now, uid, gid, flags),
{
    let blocks: u64 = match kind {
        FileTypeDef::Directory => 0,
        _ => 1,
    };
    FileAttrDef {
        ino,
        size: 0,
        blocks,
        atime: now,
        mtime: now,
        ctime: now,
        crtime: now,
        kind,
        perm: DEFAULT_PERM,
        nlink: 0,
        uid,
        gid,
        rdev: 0,
        flags,
    }
}

impl Inode {
    /// Builds a fresh inode with the given name and attributes and with every
    /// reference slot absent.
    pub fn new(name: Vec<u8>, attributes: FileAttrDef) -> (inode: Inode)
        ensures
            inode@.name == name@,
            inode@.attributes == attributes,
            inode@.references == empty_references(),
    {
        let mut references: Vec<Option<usize>> = Vec::new();
        let mut i: usize = 0;
        while i < MAX_FILES_DIRECTORY
            invariant
                i <= MAX_FILES_DIRECTORY,
                references@.len() == i,
                forall|j: int| 0 <= j < i ==> references@[j] == None::<usize>,
            decreases MAX_FILES_DIRECTORY - i,
        {
            references.push(None);
            i = i + 1;
        }
        assert(references@ =~= empty_references());
        Inode { name, attributes, references }
    }

    /// A copy of this inode.
    pub fn duplicate(&self) -> (copy: Inode)
        ensures
            copy@ == self@,
    {
        let name = self.name.clone();
        let references = self.references.clone();
        assert(name@ =~= self.name@);
        assert(references@ =~= self.references@);
        Inode { name, attributes: self.attributes, references }
    }
}

} // verus!
