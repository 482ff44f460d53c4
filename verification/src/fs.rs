//! The filesystem operations, each a step from one volume to the next with
//! the reply that the host is owed.

use vstd::prelude::*;
use crate::clock::get_time;
use vstd::slice::slice_to_vec;
use crate::disk::{lemma_first_index, Disk, DiskView, INODE_SLOT_SIZE};
use crate::codec::encoded_size;
use crate::inode::{
    empty_references, fresh_attributes, stamp_attributes, FileAttrDef, FileTypeDef, Inode,
    InodeView, TimespecDef, NAMELEN,
};
use crate::invariants::{
    lemma_create_keeps_sound, lemma_mkdir_keeps_sound, lemma_rename_keeps_sound,
    lemma_rmdir_keeps_sound, lemma_write_keeps_sound,
};
use crate::names::trim;

verus! {

/// Slots of the inode table of a volume made with the default sizes.
pub const DEFAULT_SIZE: usize = 1024;

/// Data blocks of a volume made with the default sizes: one less than the
/// blocks of `DEFAULT_SIZE` slots that fit into `DEFAULT_SIZE` cubed bytes.
pub const DEFAULT_BLOCKS: usize = 5697;

/// The cookie that every child entry of a directory listing carries. A
/// listing asked for from this cookie on is empty.
pub const LISTING_COOKIE: i64 = 8;

/// The errors that an operation reports to the host.
#[derive(Clone, Copy, Debug, PartialEq, Eq, Structural)]
pub enum Errno {
    /// No such name or inode.
    ENOENT,
    /// The operation could not be carried out.
    EIO,
    /// The inode table, the block pool or the directory is full.
    ENOSPC,
    /// The operation is not provided.
    ENOSYS,
    /// Reported when a directory to open does not exist.
    EISDIR,
}

/// The reply to a lookup or to the making of a directory.
#[derive(Clone, Copy, Debug, PartialEq, Eq, Structural)]
pub struct EntryReply {
    pub ttl: TimespecDef,
    pub attributes: FileAttrDef,
    pub generation: u64,
}

/// The reply to a request for attributes.
#[derive(Clone, Copy, Debug, PartialEq, Eq, Structural)]
pub struct AttrReply {
    pub ttl: TimespecDef,
    pub attributes: FileAttrDef,
}

/// The reply to the creation of a file.
#[derive(Clone, Copy, Debug, PartialEq, Eq, Structural)]
pub struct CreateReply {
    pub ttl: TimespecDef,
    pub attributes: FileAttrDef,
    pub generation: u64,
    pub fh: u64,
    pub flags: u32,
}

/// The reply to the opening of a file or directory.
#[derive(Clone, Copy, Debug, PartialEq, Eq, Structural)]
pub struct OpenReply {
    pub fh: u64,
    pub flags: u32,
}

/// The figures of the volume.
#[derive(Clone, Copy, Debug, PartialEq, Eq, Structural)]
pub struct StatfsReply {
    pub blocks: u64,
    pub bfree: u64,
    pub bavail: u64,
    pub files: u64,
    pub ffree: u64,
    pub bsize: u32,
    pub namelen: u32,
    pub frsize: u32,
}

/// One line of a directory listing.
#[derive(Debug)]
pub struct DirEntry {
    pub ino: u64,
    pub offset: i64,
    pub kind: FileTypeDef,
    pub name: Vec<u8>,
}

/// The mathematical value of one line of a directory listing.
pub struct DirEntryView {
    pub ino: u64,
    pub offset: i64,
    pub kind: FileTypeDef,
    pub name: Seq<u8>,
}

impl View for DirEntry {
    type V = DirEntryView;

    open spec fn view(&self) -> DirEntryView {
        DirEntryView { ino: self.ino, offset: self.offset, kind: self.kind, name: self.name@ }
    }
}

/// The filesystem: a volume and the owner that new inodes are stamped with.
#[derive(Debug)]
pub struct QRFS {
    pub disk: Disk,
    pub uid: u32,
    pub gid: u32,
}

/// The low 32 bits of `n`.
pub open spec fn low_32(n: nat) -> u32 {
    (n % 0x1_0000_0000) as u32
}

/// The low 32 bits of `n`.
pub fn truncate_32(n: usize) -> (r: u32)
    ensures
        r == low_32(n as nat),
{
    ((n as u64) % 0x1_0000_0000u64) as u32
}

/// The reply to a lookup of `name` under `parent` at time `now`.
pub open spec fn lookup_reply(d: DiskView, parent: int, name: Seq<u8>, now: TimespecDef) -> Result<
    EntryReply,
    Errno,
> {
    match d.find_child(parent, trim(name)) {
        Some(child) => Ok(
            EntryReply { ttl: now, attributes: d.inode(child).attributes, generation: 0 },
        ),
        None => Err(Errno::ENOENT),
    }
}

/// The reply to a request for the attributes of `ino` at time `now`.
pub open spec fn getattr_reply(d: DiskView, ino: int, now: TimespecDef) -> Result<
    AttrReply,
    Errno,
> {
    if d.present(ino) {
        Ok(AttrReply { ttl: now, attributes: d.inode(ino).attributes })
    } else {
        Err(Errno::ENOENT)
    }
}

/// The figures of a volume; none where no data block is free or where more
/// blocks are taken than the inode table has slots.
pub open spec fn statfs_reply(d: DiskView) -> Option<StatfsReply> {
    match d.first_free_block() {
        Some(first) => if first <= d.max_files {
            Some(
                StatfsReply {
                    blocks: d.blocks.len() as u64,
                    bfree: (d.blocks.len() - first) as u64,
                    bavail: (d.blocks.len() - first) as u64,
                    files: first as u64,
                    ffree: (d.max_files - first) as u64,
                    bsize: low_32(d.block_size),
                    namelen: NAMELEN,
                    frsize: low_32(d.blocks.len()),
                },
            )
        } else {
            None
        },
        None => None,
    }
}

/// The directory that `mkdir` makes: empty, and so stamped with no block.
pub open spec fn new_directory(
    ino: u64,
    name: Seq<u8>,
    now: TimespecDef,
    uid: u32,
    gid: u32,
) -> InodeView {
    InodeView {
        name,
        attributes: fresh_attributes(ino, FileTypeDef::Directory, now, uid, gid, 0),
        references: empty_references(),
    }
}

/// The regular file that `create` makes: its first reference names its data
/// block.
pub open spec fn new_file(
    ino: u64,
    name: Seq<u8>,
    block: usize,
    now: TimespecDef,
    uid: u32,
    gid: u32,
    flags: u32,
) -> InodeView {
    InodeView {
        name,
        attributes: fresh_attributes(ino, FileTypeDef::RegularFile, now, uid, gid, flags),
        references: empty_references().update(0, Some(block)),
    }
}

/// Whether the written form of `inode` fits into one block of the volume.
pub open spec fn fits(d: DiskView, inode: InodeView) -> bool {
    encoded_size(inode) <= d.block_size
}

/// Whether `mkdir` finds room: a free reference slot in the parent, a free
/// inode slot, and a block large enough for the record.
pub open spec fn mkdir_has_room(
    d: DiskView,
    parent: int,
    name: Seq<u8>,
    now: TimespecDef,
    uid: u32,
    gid: u32,
) -> bool {
    &&& d.free_reference_slot(parent).is_some()
    &&& d.first_free_slot().is_some()
    &&& fits(d, new_directory((d.first_free_slot().unwrap() + 1) as u64, name, now, uid, gid))
}

/// The reply to `mkdir`.
pub open spec fn mkdir_reply(
    d: DiskView,
    parent: int,
    name: Seq<u8>,
    now: TimespecDef,
    uid: u32,
    gid: u32,
) -> Result<EntryReply, Errno> {
    if mkdir_has_room(d, parent, name, now, uid, gid) {
        Ok(
            EntryReply {
                ttl: now,
                attributes: new_directory(
                    (d.first_free_slot().unwrap() + 1) as u64,
                    name,
                    now,
                    uid,
                    gid,
                ).attributes,
                generation: 0,
            },
        )
    } else {
        Err(Errno::ENOSPC)
    }
}

/// The volume after `mkdir`: with the new directory in the first free inode
/// slot and its number in the first free reference slot of the parent; or as
/// before, where there is no room.
pub open spec fn mkdir_volume(
    d: DiskView,
    parent: int,
    name: Seq<u8>,
    now: TimespecDef,
    uid: u32,
    gid: u32,
) -> DiskView {
    if mkdir_has_room(d, parent, name, now, uid, gid) {
        let ino = d.first_free_slot().unwrap() + 1;
        d.with_inode(ino, Some(new_directory(ino as u64, name, now, uid, gid))).with_reference(
            parent,
            d.free_reference_slot(parent).unwrap(),
            Some(ino as usize),
        )
    } else {
        d
    }
}

/// Whether `create` finds an inode slot, a data block and room for the
/// record, given that the parent has a free reference slot.
pub open spec fn create_has_space(
    d: DiskView,
    name: Seq<u8>,
    flags: u32,
    now: TimespecDef,
    uid: u32,
    gid: u32,
) -> bool {
    &&& d.first_free_slot().is_some()
    &&& d.first_free_block().is_some()
    &&& fits(
        d,
        new_file(
            (d.first_free_slot().unwrap() + 1) as u64,
            name,
            d.first_free_block().unwrap() as usize,
            now,
            uid,
            gid,
            flags,
        ),
    )
}

/// The reply to `create`.
pub open spec fn create_reply(
    d: DiskView,
    parent: int,
    name: Seq<u8>,
    flags: u32,
    now: TimespecDef,
    uid: u32,
    gid: u32,
) -> Result<CreateReply, Errno> {
    if d.free_reference_slot(parent).is_none() {
        Err(Errno::EIO)
    } else if !create_has_space(d, name, flags, now, uid, gid) {
        Err(Errno::ENOSPC)
    } else {
        let ino = (d.first_free_slot().unwrap() + 1) as u64;
        Ok(
            CreateReply {
                ttl: now,
                attributes: new_file(
                    ino,
                    name,
                    d.first_free_block().unwrap() as usize,
                    now,
                    uid,
                    gid,
                    flags,
                ).attributes,
                generation: 1,
                fh: ino,
                flags,
            },
        )
    }
}

/// The volume after `create`: with the new file in the first free inode
/// slot, an empty body in the first free data block, and the file's number in
/// the first free reference slot of the parent; or as before, where the
/// reply is an error.
pub open spec fn create_volume(
    d: DiskView,
    parent: int,
    name: Seq<u8>,
    flags: u32,
    now: TimespecDef,
    uid: u32,
    gid: u32,
) -> DiskView {
    if create_reply(d, parent, name, flags, now, uid, gid).is_ok() {
        let ino = d.first_free_slot().unwrap() + 1;
        let block = d.first_free_block().unwrap();
        d.with_inode(
            ino,
            Some(new_file(ino as u64, name, block as usize, now, uid, gid, flags)),
        ).with_block(block, Some(Seq::empty())).with_reference(
            parent,
            d.free_reference_slot(parent).unwrap(),
            Some(ino as usize),
        )
    } else {
        d
    }
}

/// An inode with another size.
pub open spec fn resized(inode: InodeView, size: u64) -> InodeView {
    InodeView { attributes: FileAttrDef { size, ..inode.attributes }, ..inode }
}

/// An inode with another name.
pub open spec fn renamed(inode: InodeView, name: Seq<u8>) -> InodeView {
    InodeView { name, ..inode }
}

/// The volume after `write`: inode `ino` has the size of `data`, and the
/// data block with index `ino - 1` holds `data`; or as before, where there
/// is no such inode.
pub open spec fn write_volume(d: DiskView, ino: int, data: Seq<u8>) -> DiskView {
    if d.present(ino) {
        d.with_inode(ino, Some(resized(d.inode(ino), data.len() as u64))).with_block(
            ino - 1,
            Some(data),
        )
    } else {
        d
    }
}

/// The volume after `rmdir`: the first reference of the parent to the child
/// is cleared and the child's slot is emptied; or as before, where the name
/// does not resolve.
pub open spec fn rmdir_volume(d: DiskView, parent: int, name: Seq<u8>) -> DiskView {
    match d.find_child(parent, trim(name)) {
        Some(child) => d.with_reference(
            parent,
            d.reference_slot_of(parent, child as usize).unwrap(),
            None,
        ).with_inode(child, None),
        None => d,
    }
}

/// The volume after `rename`: the child carries the new name; or as before,
/// where the old name does not resolve.
pub open spec fn rename_volume(
    d: DiskView,
    parent: int,
    name: Seq<u8>,
    newname: Seq<u8>,
) -> DiskView {
    match d.find_child(parent, trim(name)) {
        Some(child) => d.with_inode(child, Some(renamed(d.inode(child), newname))),
        None => d,
    }
}

impl QRFS {
    /// A filesystem on a fresh volume of the default sizes, its root stamped
    /// with `now`, `uid` and `gid`.
    pub fn new_at(root_path: String, now: TimespecDef, uid: u32, gid: u32) -> (fs: QRFS)
        ensures
            fs.uid == uid,
            fs.gid == gid,
            fs.disk@.wf(),
            fs.disk@.sound(),
            fs.disk@.max_files == DEFAULT_SIZE,
            fs.disk@.block_size == DEFAULT_SIZE * INODE_SLOT_SIZE,
            fs.disk@.root_path == root_path@,
            fs.disk@.inodes.len() == DEFAULT_SIZE,
            fs.disk@.inodes[0] == Some(crate::disk::root_inode(now, uid, gid)),
            forall|i: int| 1 <= i < fs.disk@.inodes.len() ==> fs.disk@.inodes[i].is_none(),
            fs.disk@.blocks.len() == DEFAULT_BLOCKS,
            forall|i: int| 0 <= i < fs.disk@.blocks.len() ==> fs.disk@.blocks[i].is_none(),
    {
        let max_files: usize = DEFAULT_SIZE;
        let memory_size: usize = DEFAULT_SIZE * DEFAULT_SIZE * DEFAULT_SIZE;
        let block_size: usize = max_files * INODE_SLOT_SIZE;
        assert(memory_size == 1073741824 && block_size == 188416);
        assert(1073741824int / 188416int == 5698int) by (nonlinear_arith);
        assert(memory_size / block_size == DEFAULT_BLOCKS + 1);
        let disk = Disk::new(root_path, memory_size, block_size, now, uid, gid);
        QRFS { disk, uid, gid }
    }

    /// A filesystem on a fresh volume of the default sizes, its root stamped
    /// with the time of the call.
    pub fn new(root_path: String, uid: u32, gid: u32) -> (fs: QRFS)
        ensures
            fs.uid == uid,
            fs.gid == gid,
            fs.disk@.wf(),
            fs.disk@.sound(),
            fs.disk@.max_files == DEFAULT_SIZE,
            fs.disk@.block_size == DEFAULT_SIZE * INODE_SLOT_SIZE,
            fs.disk@.root_path == root_path@,
            fs.disk@.inodes.len() == DEFAULT_SIZE,
            exists|now: TimespecDef|
                fs.disk@.inodes[0] == Some(#[trigger] crate::disk::root_inode(now, uid, gid)),
            forall|i: int| 1 <= i < fs.disk@.inodes.len() ==> fs.disk@.inodes[i].is_none(),
            fs.disk@.blocks.len() == DEFAULT_BLOCKS,
            forall|i: int| 0 <= i < fs.disk@.blocks.len() ==> fs.disk@.blocks[i].is_none(),
    {
        let now = get_time();
        QRFS::new_at(root_path, now, uid, gid)
    }

    /// Looks `name` up under `parent`; the reply carries `now` as its time
    /// to live.
    pub fn lookup_at(&self, parent: u64, name: &[u8], now: TimespecDef) -> (out: Result<
        EntryReply,
        Errno,
    >)
        requires
            self.disk@.wf(),
            self.disk@.present(parent as int),
            self.disk@.references_resolve(parent as int),
        ensures
            out == lookup_reply(self.disk@, parent as int, name@, now),
    {
        match self.disk.find_inode_name(parent, name) {
            Some(inode) => Ok(EntryReply { ttl: now, attributes: inode.attributes, generation: 0 }),
            None => Err(Errno::ENOENT),
        }
    }

    /// Looks `name` up under `parent`; the reply carries the time of the
    /// call as its time to live.
    pub fn lookup(&self, parent: u64, name: &[u8]) -> (out: Result<EntryReply, Errno>)
        requires
            self.disk@.wf(),
            self.disk@.present(parent as int),
            self.disk@.references_resolve(parent as int),
        ensures
            exists|now: TimespecDef|
                out == #[trigger] lookup_reply(self.disk@, parent as int, name@, now),
    {
        let now = get_time();
        self.lookup_at(parent, name, now)
    }

    /// The attributes of inode `ino`, with `now` as their time to live.
    pub fn getattr_at(&self, ino: u64, now: TimespecDef) -> (out: Result<AttrReply, Errno>)
        ensures
            out == getattr_reply(self.disk@, ino as int, now),
    {
        match self.disk.get_inode(ino) {
            Some(inode) => Ok(AttrReply { ttl: now, attributes: inode.attributes }),
            None => Err(Errno::ENOENT),
        }
    }

    /// The attributes of inode `ino`, with the time of the call as their
    /// time to live.
    pub fn getattr(&self, ino: u64) -> (out: Result<AttrReply, Errno>)
        ensures
            exists|now: TimespecDef| out == #[trigger] getattr_reply(self.disk@, ino as int, now),
    {
        let now = get_time();
        self.getattr_at(ino, now)
    }

    /// The whole body held in the data block with index `ino - 1`, or `EIO`
    /// where that block is absent.
    pub fn read(&self, ino: u64) -> (out: Result<&Vec<u8>, Errno>)
        requires
            1 <= ino <= self.disk@.blocks.len(),
        ensures
            match out {
                Ok(bytes) => self.disk@.blocks[ino - 1] == Some(bytes@),
                Err(e) => e == Errno::EIO && self.disk@.blocks[ino - 1].is_none(),
            },
    {
        let _blocks: usize = self.disk.memory_blocks.len();
        match self.disk.get_content_bytes((ino - 1) as usize) {
            Some(bytes) => Ok(bytes),
            None => Err(Errno::EIO),
        }
    }

    /// Opens inode `ino`: the handle is its number. `ENOSYS` where there is
    /// no such inode.
    pub fn open(&self, ino: u64, flags: u32) -> (out: Result<OpenReply, Errno>)
        ensures
            out == if self.disk@.present(ino as int) {
                Ok::<OpenReply, Errno>(OpenReply { fh: ino, flags })
            } else {
                Err::<OpenReply, Errno>(Errno::ENOSYS)
            },
    {
        match self.disk.get_inode(ino) {
            Some(_) => Ok(OpenReply { fh: ino, flags }),
            None => Err(Errno::ENOSYS),
        }
    }

    /// Opens directory `ino`: the handle is the number that the inode
    /// carries. `EISDIR` where there is no such inode.
    pub fn opendir(&self, ino: u64, flags: u32) -> (out: Result<OpenReply, Errno>)
        ensures
            out == if self.disk@.present(ino as int) {
                Ok::<OpenReply, Errno>(
                    OpenReply { fh: self.disk@.inode(ino as int).attributes.ino, flags },
                )
            } else {
                Err::<OpenReply, Errno>(Errno::EISDIR)
            },
    {
        match self.disk.get_inode(ino) {
            Some(inode) => Ok(OpenReply { fh: inode.attributes.ino, flags }),
            None => Err(Errno::EISDIR),
        }
    }

    /// Access is granted to everyone.
    pub fn access(&self, ino: u64, mask: u32) -> (out: Result<(), Errno>)
        ensures
            out.is_ok(),
    {
        Ok(())
    }

    /// Synchronising is not provided.
    pub fn fsync(&self, ino: u64, fh: u64, datasync: bool) -> (out: Result<(), Errno>)
        ensures
            out == Err::<(), Errno>(Errno::ENOSYS),
    {
        Err(Errno::ENOSYS)
    }

    /// The figures of the volume.
    pub fn statfs(&self) -> (out: Option<StatfsReply>)
        ensures
            out == statfs_reply(self.disk@),
    {
        let blocks: usize = self.disk.memory_blocks.len();
        match self.disk.find_empty_memory_block() {
            Some(first) => {
                proof {
                    crate::disk::lemma_first_index(
                        0,
                        self.disk@.blocks.len() - 1,
                        |i: int| 0 <= i < self.disk@.blocks.len() && self.disk@.blocks[i].is_none(),
                    );
                }
                if first > self.disk.max_files {
                    return None;
                }
                let bfree: usize = blocks - first;
                Some(
                    StatfsReply {
                        blocks: blocks as u64,
                        bfree: bfree as u64,
                        bavail: bfree as u64,
                        files: first as u64,
                        ffree: (self.disk.max_files - first) as u64,
                        bsize: truncate_32(self.disk.block_size),
                        namelen: NAMELEN,
                        frsize: truncate_32(blocks),
                    },
                )
            },
            None => None,
        }
    }
}

/// The line that a child contributes to a directory listing.
pub open spec fn entry_of(inode: InodeView) -> DirEntryView {
    DirEntryView {
        ino: inode.attributes.ino,
        offset: LISTING_COOKIE,
        kind: inode.attributes.kind,
        name: inode.name,
    }
}

/// The lines for the first `upto` reference slots: one for every slot that
/// names a present inode other than the root, in the order of the slots.
pub open spec fn child_entries(d: DiskView, refs: Seq<Option<usize>>, upto: int) -> Seq<
    DirEntryView,
>
    decreases upto,
{
    if upto <= 0 {
        Seq::empty()
    } else {
        let rest = child_entries(d, refs, upto - 1);
        match refs[upto - 1] {
            Some(r) => if d.present(r as int) && d.inode(r as int).attributes.ino != 1 {
                rest.push(entry_of(d.inode(r as int)))
            } else {
                rest
            },
            None => rest,
        }
    }
}

/// The two lines that stand for the root itself and for what is above it.
pub open spec fn root_entries() -> Seq<DirEntryView> {
    seq![
        DirEntryView { ino: 1, offset: 0, kind: FileTypeDef::Directory, name: seq![46u8] },
        DirEntryView { ino: 1, offset: 1, kind: FileTypeDef::Directory, name: seq![46u8, 46u8] },
    ]
}

/// The listing of directory `ino` from `offset` on.
pub open spec fn readdir_reply(d: DiskView, ino: int, offset: i64) -> Result<
    Seq<DirEntryView>,
    Errno,
> {
    let head = if ino == 1 && offset == 0 {
        root_entries()
    } else {
        Seq::empty()
    };
    if !d.present(ino) {
        Err(Errno::ENOENT)
    } else if offset == LISTING_COOKIE {
        Ok(head)
    } else {
        Ok(
            head + child_entries(
                d,
                d.inode(ino).references,
                d.inode(ino).references.len() as int,
            ),
        )
    }
}

/// The values of the lines of a listing.
pub open spec fn entries_view(entries: Seq<DirEntry>) -> Seq<DirEntryView> {
    Seq::new(entries.len(), |i: int| entries[i]@)
}

impl QRFS {
    /// Lists directory `ino`; `ENOENT` where there is no such inode.
    ///
    /// Asked from the start, the listing of the root opens with the two
    /// lines for the root itself; then comes one line for every reference
    /// that names a present inode other than the root. Asked from the cookie
    /// of the child lines on, the listing is empty.
    pub fn readdir(&self, ino: u64, offset: i64) -> (out: Result<Vec<DirEntry>, Errno>)
        requires
            self.disk@.wf(),
        ensures
            match out {
                Ok(entries) => readdir_reply(self.disk@, ino as int, offset) == Ok::<
                    Seq<DirEntryView>,
                    Errno,
                >(entries_view(entries@)),
                Err(e) => readdir_reply(self.disk@, ino as int, offset) == Err::<
                    Seq<DirEntryView>,
                    Errno,
                >(e),
            },
    {
        let inode = match self.disk.get_inode(ino) {
            Some(inode) => inode,
            None => {
                return Err(Errno::ENOENT);
            },
        };
        let mut entries: Vec<DirEntry> = Vec::new();
        if ino == 1 && offset == 0 {
            let mut dot: Vec<u8> = Vec::new();
            dot.push(46u8);
            let mut dotdot: Vec<u8> = Vec::new();
            dotdot.push(46u8);
            dotdot.push(46u8);
            entries.push(DirEntry { ino: 1, offset: 0, kind: FileTypeDef::Directory, name: dot });
            entries.push(
                DirEntry { ino: 1, offset: 1, kind: FileTypeDef::Directory, name: dotdot },
            );
            assert(entries@[0]@.name =~= seq![46u8]);
            assert(entries@[1]@.name =~= seq![46u8, 46u8]);
            assert(entries_view(entries@) =~= root_entries());
        } else {
            assert(entries_view(entries@) =~= Seq::<DirEntryView>::empty());
        }
        if offset == LISTING_COOKIE {
            return Ok(entries);
        }
        let ghost head = entries_view(entries@);
        let ghost refs = inode@.references;
        let mut i: usize = 0;
        while i < inode.references.len()
            invariant
                i <= inode.references@.len(),
                refs == inode.references@,
                self.disk@.wf(),
                entries_view(entries@) == head + child_entries(self.disk@, refs, i as int),
            decreases inode.references@.len() - i,
        {
            let ghost before = entries_view(entries@);
            if let Some(r) = inode.references[i] {
                if let Some(child) = self.disk.get_inode(r as u64) {
                    if child.attributes.ino != 1 {
                        let name = child.name.clone();
                        entries.push(
                            DirEntry {
                                ino: child.attributes.ino,
                                offset: LISTING_COOKIE,
                                kind: child.attributes.kind,
                                name,
                            },
                        );
                        assert(entries_view(entries@) =~= before.push(entry_of(child@)));
                    }
                }
            }
            assert(entries_view(entries@) =~= head + child_entries(
                self.disk@,
                refs,
                i + 1,
            ));
            i = i + 1;
        }
        Ok(entries)
    }
}

impl QRFS {
    /// Makes the directory `name` under `parent`, stamped with `now`.
    ///
    /// Replies `ENOSPC`, and leaves the volume as it is, where the parent has
    /// no free reference slot, the inode table has no free slot, or the
    /// record does not fit into a block.
    pub fn mkdir_at(&mut self, parent: u64, name: &[u8], now: TimespecDef) -> (out: Result<
        EntryReply,
        Errno,
    >)
        requires
            old(self).disk@.wf(),
            old(self).disk@.present(parent as int),
        ensures
            out == mkdir_reply(
                old(self).disk@,
                parent as int,
                name@,
                now,
                old(self).uid,
                old(self).gid,
            ),
            final(self).disk@ == mkdir_volume(
                old(self).disk@,
                parent as int,
                name@,
                now,
                old(self).uid,
                old(self).gid,
            ),
            final(self).disk@.wf(),
            old(self).disk@.graph_sound() ==> final(self).disk@.graph_sound(),
            old(self).disk@.graph_sound()
                && old(self).disk@.names_unique()
                && old(self).disk@.name_is_free(parent as int, name@)
                ==> final(self).disk@.names_unique(),
            old(self).disk@.blocks_sound() ==> final(self).disk@.blocks_sound(),
            final(self).uid == old(self).uid,
            final(self).gid == old(self).gid,
    {
        proof {
            lemma_mkdir_keeps_sound(
                old(self).disk@,
                parent as int,
                name@,
                now,
                old(self).uid,
                old(self).gid,
            );
        }
        let slot = match self.disk.find_empty_reference(parent) {
            Some(slot) => slot,
            None => {
                return Err(Errno::ENOSPC);
            },
        };
        let ino = match self.disk.find_next_ino() {
            Some(ino) => ino,
            None => {
                return Err(Errno::ENOSPC);
            },
        };
        proof {
            lemma_first_index(
                0,
                old(self).disk@.inodes.len() - 1,
                |i: int|
                    0 <= i < old(self).disk@.inodes.len() && old(self).disk@.inodes[i].is_none(),
            );
            let refs = old(self).disk@.inode(parent as int).references;
            lemma_first_index(
                0,
                refs.len() as int,
                |s: int| 0 <= s < refs.len() && refs[s].is_none(),
            );
        }
        let attributes = stamp_attributes(
            ino,
            FileTypeDef::Directory,
            now,
            self.uid,
            self.gid,
            0,
        );
        let inode = Inode::new(slice_to_vec(name), attributes);
        assert(inode@ == new_directory(ino, name@, now, self.uid, self.gid));
        if !self.disk.write_inode(inode) {
            return Err(Errno::ENOSPC);
        }
        self.disk.write_reference(parent, slot, ino as usize);
        Ok(EntryReply { ttl: now, attributes, generation: 0 })
    }

    /// Makes the directory `name` under `parent`, stamped with the time of
    /// the call.
    pub fn mkdir(&mut self, parent: u64, name: &[u8]) -> (out: Result<EntryReply, Errno>)
        requires
            old(self).disk@.wf(),
            old(self).disk@.present(parent as int),
        ensures
            exists|now: TimespecDef|
                {
                    &&& out == #[trigger] mkdir_reply(
                        old(self).disk@,
                        parent as int,
                        name@,
                        now,
                        old(self).uid,
                        old(self).gid,
                    )
                    &&& final(self).disk@ == mkdir_volume(
                        old(self).disk@,
                        parent as int,
                        name@,
                        now,
                        old(self).uid,
                        old(self).gid,
                    )
                },
            final(self).disk@.wf(),
            old(self).disk@.graph_sound() ==> final(self).disk@.graph_sound(),
            old(self).disk@.graph_sound()
                && old(self).disk@.names_unique()
                && old(self).disk@.name_is_free(parent as int, name@)
                ==> final(self).disk@.names_unique(),
            old(self).disk@.blocks_sound() ==> final(self).disk@.blocks_sound(),
            final(self).uid == old(self).uid,
            final(self).gid == old(self).gid,
    {
        let now = get_time();
        self.mkdir_at(parent, name, now)
    }
}

impl QRFS {
    /// Creates the regular file `name` under `parent`, stamped with `now` and
    /// with an empty body.
    ///
    /// Replies `EIO` where the parent has no free reference slot, and
    /// `ENOSPC` where the inode table has no free slot, the block pool has
    /// no free block, or the record does not fit into a block. On an error
    /// the volume stays as it is.
    pub fn create_at(&mut self, parent: u64, name: &[u8], flags: u32, now: TimespecDef) -> (out:
        Result<CreateReply, Errno>)
        requires
            old(self).disk@.wf(),
            old(self).disk@.present(parent as int),
        ensures
            out == create_reply(
                old(self).disk@,
                parent as int,
                name@,
                flags,
                now,
                old(self).uid,
                old(self).gid,
            ),
            final(self).disk@ == create_volume(
                old(self).disk@,
                parent as int,
                name@,
                flags,
                now,
                old(self).uid,
                old(self).gid,
            ),
            final(self).disk@.wf(),
            old(self).disk@.graph_sound() ==> final(self).disk@.graph_sound(),
            old(self).disk@.graph_sound()
                && old(self).disk@.names_unique()
                && old(self).disk@.name_is_free(parent as int, name@)
                ==> final(self).disk@.names_unique(),
            old(self).disk@.blocks_sound() ==> final(self).disk@.blocks_sound(),
            final(self).uid == old(self).uid,
            final(self).gid == old(self).gid,
    {
        proof {
            lemma_create_keeps_sound(
                old(self).disk@,
                parent as int,
                name@,
                flags,
                now,
                old(self).uid,
                old(self).gid,
            );
        }
        let slot = match self.disk.find_empty_reference(parent) {
            Some(slot) => slot,
            None => {
                return Err(Errno::EIO);
            },
        };
        let next_ino = self.disk.find_next_ino();
        let memory_block = self.disk.find_empty_memory_block();
        let (ino, block) = match (next_ino, memory_block) {
            (Some(ino), Some(block)) => (ino, block),
            _ => {
                return Err(Errno::ENOSPC);
            },
        };
        proof {
            lemma_first_index(
                0,
                old(self).disk@.inodes.len() - 1,
                |i: int|
                    0 <= i < old(self).disk@.inodes.len() && old(self).disk@.inodes[i].is_none(),
            );
            lemma_first_index(
                0,
                old(self).disk@.blocks.len() - 1,
                |i: int|
                    0 <= i < old(self).disk@.blocks.len() && old(self).disk@.blocks[i].is_none(),
            );
            let refs = old(self).disk@.inode(parent as int).references;
            lemma_first_index(
                0,
                refs.len() as int,
                |s: int| 0 <= s < refs.len() && refs[s].is_none(),
            );
        }
        let attributes = stamp_attributes(
            ino,
            FileTypeDef::RegularFile,
            now,
            self.uid,
            self.gid,
            flags,
        );
        let mut inode = Inode::new(slice_to_vec(name), attributes);
        inode.references[0] = Some(block);
        assert(inode@ == new_file(ino, name@, block, now, self.uid, self.gid, flags));
        if !self.disk.write_inode(inode) {
            return Err(Errno::ENOSPC);
        }
        let content: Vec<u8> = Vec::new();
        self.disk.write_content_bytes(block, content);
        self.disk.write_reference(parent, slot, ino as usize);
        Ok(CreateReply { ttl: now, attributes, generation: 1, fh: ino, flags })
    }

    /// Creates the regular file `name` under `parent`, stamped with the time
    /// of the call.
    pub fn create(&mut self, parent: u64, name: &[u8], flags: u32) -> (out: Result<
        CreateReply,
        Errno,
    >)
        requires
            old(self).disk@.wf(),
            old(self).disk@.present(parent as int),
        ensures
            exists|now: TimespecDef|
                {
                    &&& out == #[trigger] create_reply(
                        old(self).disk@,
                        parent as int,
                        name@,
                        flags,
                        now,
                        old(self).uid,
                        old(self).gid,
                    )
                    &&& final(self).disk@ == create_volume(
                        old(self).disk@,
                        parent as int,
                        name@,
                        flags,
                        now,
                        old(self).uid,
                        old(self).gid,
                    )
                },
            final(self).disk@.wf(),
            old(self).disk@.graph_sound() ==> final(self).disk@.graph_sound(),
            old(self).disk@.graph_sound()
                && old(self).disk@.names_unique()
                && old(self).disk@.name_is_free(parent as int, name@)
                ==> final(self).disk@.names_unique(),
            old(self).disk@.blocks_sound() ==> final(self).disk@.blocks_sound(),
            final(self).uid == old(self).uid,
            final(self).gid == old(self).gid,
    {
        let now = get_time();
        self.create_at(parent, name, flags, now)
    }

    /// Replaces the body of inode `ino` by `data` and sets its size. The
    /// reply is the number of bytes written, as far as 32 bits hold it;
    /// `ENOENT`, with the volume as it was, where there is no such inode.
    pub fn write(&mut self, ino: u64, data: &[u8]) -> (out: Result<u32, Errno>)
        requires
            old(self).disk@.wf(),
            old(self).disk@.present(ino as int) ==> ino <= old(self).disk@.blocks.len()
                && data@.len() <= old(self).disk@.block_size,
        ensures
            out == if old(self).disk@.present(ino as int) {
                Ok::<u32, Errno>(low_32(data@.len()))
            } else {
                Err::<u32, Errno>(Errno::ENOENT)
            },
            final(self).disk@ == write_volume(old(self).disk@, ino as int, data@),
            final(self).disk@.wf(),
            old(self).disk@.graph_sound() ==> final(self).disk@.graph_sound(),
            old(self).disk@.names_unique() ==> final(self).disk@.names_unique(),
            old(self).disk@.blocks_sound()
                && (old(self).disk@.present(ino as int)
                ==> old(self).disk@.block_has_owner(ino - 1))
                ==> final(self).disk@.blocks_sound(),
            final(self).uid == old(self).uid,
            final(self).gid == old(self).gid,
    {
        proof {
            lemma_write_keeps_sound(old(self).disk@, ino as int, data@);
        }
        let content: Vec<u8> = slice_to_vec(data);
        let size: usize = data.len();
        match self.disk.get_inode_mutable(ino) {
            Some(inode) => {
                inode.attributes.size = size as u64;
            },
            None => {
                return Err(Errno::ENOENT);
            },
        }
        proof {
            self.disk.lemma_view();
            old(self).disk.lemma_view();
            assert(self.disk@.inodes =~= old(self).disk@.with_inode(
                ino as int,
                Some(resized(old(self).disk@.inode(ino as int), size as u64)),
            ).inodes);
        }
        let _blocks: usize = self.disk.memory_blocks.len();
        self.disk.write_content_bytes((ino - 1) as usize, content);
        Ok(truncate_32(size))
    }

    /// Removes the child of `parent` that `name` resolves to: clears the
    /// parent's reference to it and empties its slot. What the child itself
    /// refers to stays. `EIO`, with the volume as it was, where the name does
    /// not resolve.
    pub fn rmdir(&mut self, parent: u64, name: &[u8]) -> (out: Result<(), Errno>)
        requires
            old(self).disk@.wf(),
            old(self).disk@.present(parent as int),
            old(self).disk@.references_resolve(parent as int),
        ensures
            out == if old(self).disk@.find_child(parent as int, trim(name@)).is_some() {
                Ok::<(), Errno>(())
            } else {
                Err::<(), Errno>(Errno::EIO)
            },
            final(self).disk@ == rmdir_volume(old(self).disk@, parent as int, name@),
            final(self).disk@.wf(),
            old(self).disk@.graph_sound()
                && old(self).disk@.is_dir(parent as int)
                ==> final(self).disk@.graph_sound(),
            old(self).disk@.names_unique() ==> final(self).disk@.names_unique(),
            old(self).disk@.blocks_sound()
                && old(self).disk@.is_dir(parent as int)
                && old(self).disk@.child_shares_blocks(parent as int, name@)
                ==> final(self).disk@.blocks_sound(),
            final(self).uid == old(self).uid,
            final(self).gid == old(self).gid,
    {
        proof {
            lemma_rmdir_keeps_sound(old(self).disk@, parent as int, name@);
        }
        let ino = match self.disk.find_inode_name(parent, name) {
            Some(inode) => inode.attributes.ino,
            None => {
                return Err(Errno::EIO);
            },
        };
        proof {
            let d = old(self).disk@;
            let refs = d.inode(parent as int).references;
            lemma_first_index(
                0,
                refs.len() as int,
                |s: int| d.names_child(parent as int, s, trim(name@)),
            );
            let s = d.child_slot(parent as int, trim(name@)).unwrap();
            assert(refs[s] == Some(ino as usize));
            crate::disk::lemma_first_index_some(
                0,
                refs.len() as int,
                |k: int| 0 <= k < refs.len() && refs[k] == Some(ino as usize),
                s,
            );
            lemma_first_index(
                0,
                refs.len() as int,
                |k: int| 0 <= k < refs.len() && refs[k] == Some(ino as usize),
            );
        }
        self.disk.remove_reference(parent, ino as usize);
        self.disk.remove_inode(ino);
        Ok(())
    }

    /// Gives the child of `parent` that `name` resolves to the name
    /// `newname`. The new parent is not looked at: the child stays where it
    /// is. `ENOENT`, with the volume as it was, where the name does not
    /// resolve.
    pub fn rename(&mut self, parent: u64, name: &[u8], newparent: u64, newname: &[u8]) -> (out:
        Result<(), Errno>)
        requires
            old(self).disk@.wf(),
            old(self).disk@.present(parent as int),
            old(self).disk@.references_resolve(parent as int),
        ensures
            out == if old(self).disk@.find_child(parent as int, trim(name@)).is_some() {
                Ok::<(), Errno>(())
            } else {
                Err::<(), Errno>(Errno::ENOENT)
            },
            final(self).disk@ == rename_volume(old(self).disk@, parent as int, name@, newname@),
            final(self).disk@.wf(),
            old(self).disk@.graph_sound() ==> final(self).disk@.graph_sound(),
            old(self).disk@.blocks_sound() ==> final(self).disk@.blocks_sound(),
            old(self).disk@.graph_sound() && old(self).disk@.names_unique()
                && old(self).disk@.is_dir(parent as int)
                && old(self).disk@.name_is_free_beside(
                parent as int,
                old(self).disk@.find_child(parent as int, trim(name@)),
                newname@,
            ) ==> final(self).disk@.names_unique(),
            final(self).uid == old(self).uid,
            final(self).gid == old(self).gid,
    {
        proof {
            lemma_rename_keeps_sound(old(self).disk@, parent as int, name@, newname@);
        }
        let ino = match self.disk.find_inode_name(parent, name) {
            Some(inode) => inode.attributes.ino,
            None => {
                return Err(Errno::ENOENT);
            },
        };
        let fresh: Vec<u8> = slice_to_vec(newname);
        match self.disk.get_inode_mutable(ino) {
            Some(inode) => {
                inode.name = fresh;
            },
            None => {},
        }
        proof {
            self.disk.lemma_view();
            old(self).disk.lemma_view();
            assert(self.disk@.inodes =~= old(self).disk@.with_inode(
                ino as int,
                Some(renamed(old(self).disk@.inode(ino as int), newname@)),
            ).inodes);
            assert(self.disk@.blocks =~= old(self).disk@.blocks);
        }
        Ok(())
    }
}

} // verus!
