//! The volume: a fixed table of inode slots and a fixed pool of data blocks.

use vstd::prelude::*;
use crate::codec::{encoded_size, serialized_size};
use crate::invariants::lemma_fresh_volume_sound;
use crate::names::{name_matches, trim};
use crate::inode::{
    empty_references, fresh_attributes, stamp_attributes, FileTypeDef, Inode, InodeView,
    TimespecDef, MAX_FILES_DIRECTORY,
};

verus! {

/// Bytes that one inode slot takes in the inode table.
pub const INODE_SLOT_SIZE: usize = 184;

/// One data block: absent, or the body of one file.
#[derive(Debug)]
pub struct MemoryBlock {
    pub data: Option<Vec<u8>>,
}

impl View for MemoryBlock {
    type V = Option<Seq<u8>>;

    open spec fn view(&self) -> Option<Seq<u8>> {
        match self.data {
            Some(bytes) => Some(bytes@),
            None => None,
        }
    }
}

/// The authoritative in-memory state: inode table and block pool.
#[derive(Debug)]
pub struct Disk {
    pub super_block: Vec<Option<Inode>>,
    pub memory_blocks: Vec<MemoryBlock>,
    pub max_files: usize,
    pub block_size: usize,
    pub root_path: String,
}

/// The mathematical value of a volume.
pub struct DiskView {
    pub inodes: Seq<Option<InodeView>>,
    pub blocks: Seq<Option<Seq<u8>>>,
    pub max_files: nat,
    pub block_size: nat,
    pub root_path: Seq<char>,
}

/// The value of one inode slot.
pub open spec fn slot_view(slot: Option<Inode>) -> Option<InodeView> {
    match slot {
        Some(inode) => Some(inode@),
        None => None,
    }
}

impl View for Disk {
    type V = DiskView;

    open spec fn view(&self) -> DiskView {
        DiskView {
            inodes: Seq::new(self.super_block@.len(), |i: int| slot_view(self.super_block@[i])),
            blocks: Seq::new(self.memory_blocks@.len(), |i: int| self.memory_blocks@[i]@),
            max_files: self.max_files as nat,
            block_size: self.block_size as nat,
            root_path: self.root_path@,
        }
    }
}

/// The root directory as it is stamped when a volume is made.
pub open spec fn root_inode(now: TimespecDef, uid: u32, gid: u32) -> InodeView {
    InodeView {
        name: seq![46u8],
        attributes: fresh_attributes(1, FileTypeDef::Directory, now, uid, gid, 0),
        references: empty_references(),
    }
}

impl DiskView {
    /// Whether inode number `ino` names a slot of the table.
    pub open spec fn in_table(self, ino: int) -> bool {
        1 <= ino <= self.inodes.len()
    }

    /// Whether inode number `ino` names a slot that holds an inode.
    pub open spec fn present(self, ino: int) -> bool {
        self.in_table(ino) && self.inodes[ino - 1].is_some()
    }

    /// The inode with number `ino`; meaningful where it is present.
    pub open spec fn inode(self, ino: int) -> InodeView {
        self.inodes[ino - 1].unwrap()
    }

    /// Structural validity: the table is never empty, and every inode sits
    /// in the slot that its number names and carries the full set of
    /// reference slots.
    pub open spec fn wf(self) -> bool {
        &&& self.inodes.len() >= 1
        &&& self.inodes.len() <= usize::MAX
        &&& self.blocks.len() <= usize::MAX
        &&& forall|i: int|
            0 <= i < self.inodes.len() && (#[trigger] self.inodes[i]).is_some() ==> {
                &&& self.inodes[i].unwrap().attributes.ino == i + 1
                &&& self.inodes[i].unwrap().references.len() == MAX_FILES_DIRECTORY
            }
    }

    /// The volume with slot `ino - 1` of the inode table replaced.
    pub open spec fn with_inode(self, ino: int, v: Option<InodeView>) -> DiskView {
        DiskView { inodes: self.inodes.update(ino - 1, v), ..self }
    }

    /// The volume with one data block replaced.
    pub open spec fn with_block(self, index: int, data: Option<Seq<u8>>) -> DiskView {
        DiskView { blocks: self.blocks.update(index, data), ..self }
    }

    /// The volume with one reference slot of inode `ino` replaced.
    pub open spec fn with_reference(self, ino: int, slot: int, value: Option<usize>) -> DiskView {
        self.with_inode(
            ino,
            Some(
                InodeView {
                    references: self.inode(ino).references.update(slot, value),
                    ..self.inode(ino)
                },
            ),
        )
    }

    /// The first reference slot of inode `ino` that holds nothing.
    pub open spec fn free_reference_slot(self, ino: int) -> Option<int> {
        let refs = self.inode(ino).references;
        first_index(0, refs.len() as int, |s: int| 0 <= s < refs.len() && refs[s].is_none())
    }

    /// The first reference slot of inode `ino` that holds `value`.
    pub open spec fn reference_slot_of(self, ino: int, value: usize) -> Option<int> {
        let refs = self.inode(ino).references;
        first_index(0, refs.len() as int, |s: int| 0 <= s < refs.len() && refs[s] == Some(value))
    }

    /// Whether every present reference of inode `ino` names a present inode.
    pub open spec fn references_resolve(self, ino: int) -> bool {
        let refs = self.inode(ino).references;
        forall|s: int|
            0 <= s < refs.len() && (#[trigger] refs[s]).is_some() ==> self.present(
                refs[s].unwrap() as int,
            )
    }

    /// Whether reference slot `s` of `parent` holds a child called `name`.
    pub open spec fn names_child(self, parent: int, s: int, name: Seq<u8>) -> bool {
        let refs = self.inode(parent).references;
        &&& 0 <= s < refs.len()
        &&& refs[s].is_some()
        &&& self.inode(refs[s].unwrap() as int).name == name
    }

    /// The first reference slot of `parent` that holds a child called `name`.
    pub open spec fn child_slot(self, parent: int, name: Seq<u8>) -> Option<int> {
        first_index(
            0,
            self.inode(parent).references.len() as int,
            |s: int| self.names_child(parent, s, name),
        )
    }

    /// The number of the first child of `parent` that is called `name`.
    pub open spec fn find_child(self, parent: int, name: Seq<u8>) -> Option<int> {
        match self.child_slot(parent, name) {
            Some(s) => Some(self.inode(parent).references[s].unwrap() as int),
            None => None,
        }
    }

    /// Index of the first empty inode slot, the last slot left out.
    pub open spec fn first_free_slot(self) -> Option<int> {
        first_absent(self.inodes, self.inodes.len() - 1)
    }

    /// Index of the first empty data block, the last block left out.
    pub open spec fn first_free_block(self) -> Option<int> {
        first_absent(self.blocks, self.blocks.len() - 1)
    }
}

/// The smallest index from `start` up to, but not including, `limit` at
/// which `p` holds.
pub open spec fn first_index(start: int, limit: int, p: spec_fn(int) -> bool) -> Option<int>
    decreases limit - start,
{
    if start >= limit {
        None
    } else if p(start) {
        Some(start)
    } else {
        first_index(start + 1, limit, p)
    }
}

/// What `first_index` gives: an index in range at which `p` holds and before
/// which it does not; or nothing, and then `p` holds nowhere in range.
pub proof fn lemma_first_index(start: int, limit: int, p: spec_fn(int) -> bool)
    ensures
        match first_index(start, limit, p) {
            Some(i) => start <= i < limit && p(i) && forall|j: int|
                start <= j < i ==> !(#[trigger] p(j)),
            None => forall|j: int| start <= j < limit ==> !(#[trigger] p(j)),
        },
    decreases limit - start,
{
    if start < limit && !p(start) {
        lemma_first_index(start + 1, limit, p);
    }
}

/// An index at which `p` holds, and before which it does not, is what
/// `first_index` gives.
pub proof fn lemma_first_index_is(start: int, limit: int, p: spec_fn(int) -> bool, i: int)
    requires
        start <= i < limit,
        p(i),
        forall|j: int| start <= j < i ==> !(#[trigger] p(j)),
    ensures
        first_index(start, limit, p) == Some(i),
    decreases i - start,
{
    if start < i {
        lemma_first_index_is(start + 1, limit, p, i);
    }
}

/// Where `p` holds at some index in range, `first_index` gives an index.
pub proof fn lemma_first_index_some(start: int, limit: int, p: spec_fn(int) -> bool, i: int)
    requires
        start <= i < limit,
        p(i),
    ensures
        first_index(start, limit, p).is_some(),
    decreases limit - start,
{
    if !p(start) {
        lemma_first_index_some(start + 1, limit, p, i);
    }
}

/// Where `p` holds nowhere in range, `first_index` gives nothing.
pub proof fn lemma_first_index_none(start: int, limit: int, p: spec_fn(int) -> bool)
    requires
        forall|j: int| start <= j < limit ==> !(#[trigger] p(j)),
    ensures
        first_index(start, limit, p).is_none(),
    decreases limit - start,
{
    if start < limit {
        lemma_first_index_none(start + 1, limit, p);
    }
}

/// The smallest index below `limit` at which `s` holds nothing.
pub open spec fn first_absent<T>(s: Seq<Option<T>>, limit: int) -> Option<int> {
    first_index(0, limit, |i: int| 0 <= i < s.len() && s[i].is_none())
}

impl Disk {
    /// How the value of a volume follows from its fields.
    pub proof fn lemma_view(&self)
        ensures
            self@.inodes.len() == self.super_block@.len(),
            self@.blocks.len() == self.memory_blocks@.len(),
            forall|i: int|
                0 <= i < self.super_block@.len() ==> #[trigger] self@.inodes[i] == slot_view(
                    self.super_block@[i],
                ),
            forall|i: int|
                0 <= i < self.memory_blocks@.len() ==> #[trigger] self@.blocks[i]
                    == self.memory_blocks@[i]@,
    {
    }

    /// Makes a volume of `memory_size` bytes in blocks of `block_size` bytes.
    ///
    /// The inode table gets one slot for every `INODE_SLOT_SIZE` bytes of a
    /// block, and at least the slot of the root directory, which is stamped
    /// with `now`, `uid` and `gid`. The block pool gets one block less than
    /// fit into the memory; every block starts out absent.
    pub fn new(
        root_path: String,
        memory_size: usize,
        block_size: usize,
        now: TimespecDef,
        uid: u32,
        gid: u32,
    ) -> (disk: Disk)
        requires
            block_size > 0,
            memory_size >= block_size,
        ensures
            disk@.wf(),
            disk@.sound(),
            disk@.max_files == block_size / INODE_SLOT_SIZE,
            disk@.block_size == block_size,
            disk@.root_path == root_path@,
            disk@.inodes.len() == if disk@.max_files == 0 { 1 } else { disk@.max_files },
            disk@.inodes[0] == Some(root_inode(now, uid, gid)),
            forall|i: int| 1 <= i < disk@.inodes.len() ==> disk@.inodes[i].is_none(),
            disk@.blocks.len() == memory_size / block_size - 1,
            forall|i: int| 0 <= i < disk@.blocks.len() ==> disk@.blocks[i].is_none(),
    {
        assert(memory_size / block_size >= 1) by (nonlinear_arith)
            requires
                block_size > 0,
                memory_size >= block_size,
        ;
        let memory_quantity: usize = memory_size / block_size - 1;
        let max_files: usize = block_size / INODE_SLOT_SIZE;
        let mut super_block: Vec<Option<Inode>> = Vec::new();
        let mut memory_blocks: Vec<MemoryBlock> = Vec::new();
        let attributes = stamp_attributes(1, FileTypeDef::Directory, now, uid, gid, 0);
        let mut name: Vec<u8> = Vec::new();
        name.push(46u8);
        let root = Inode::new(name, attributes);
        assert(root@.name =~= seq![46u8]);
        assert(root@ == root_inode(now, uid, gid));
        super_block.push(Some(root));
        while super_block.len() < max_files
            invariant
                super_block@.len() >= 1,
                super_block@.len() <= max_files || super_block@.len() == 1,
                slot_view(super_block@[0]) == Some(root_inode(now, uid, gid)),
                forall|i: int| 1 <= i < super_block@.len() ==> super_block@[i].is_none(),
            decreases max_files - super_block@.len(),
        {
            super_block.push(None);
        }
        while memory_blocks.len() < memory_quantity
            invariant
                memory_blocks@.len() <= memory_quantity,
                forall|i: int| 0 <= i < memory_blocks@.len() ==> memory_blocks@[i].data.is_none(),
            decreases memory_quantity - memory_blocks@.len(),
        {
            memory_blocks.push(MemoryBlock { data: None });
        }
        let disk = Disk { super_block, memory_blocks, max_files, block_size, root_path };
        proof {
            disk.lemma_view();
            lemma_fresh_volume_sound(disk@);
        }
        disk
    }

    /// The number of the first empty inode slot, the last slot left out.
    pub fn find_next_ino(&self) -> (ino: Option<u64>)
        requires
            self@.wf(),
        ensures
            match ino {
                Some(n) => self@.first_free_slot() == Some(n - 1),
                None => self@.first_free_slot().is_none(),
            },
    {
        let limit: usize = self.super_block.len() - 1;
        let mut i: usize = 0;
        while i < limit
            invariant
                i <= limit,
                limit == self.super_block@.len() - 1,
                self@.wf(),
                forall|j: int| 0 <= j < i ==> (#[trigger] self@.inodes[j]).is_some(),
            decreases limit - i,
        {
            if self.super_block[i].is_none() {
                proof {
                    let p = |k: int| 0 <= k < self@.inodes.len() && self@.inodes[k].is_none();
                    lemma_first_index_is(0, limit as int, p, i as int);
                }
                return Some((i as u64) + 1);
            }
            i = i + 1;
        }
        proof {
            let p = |k: int| 0 <= k < self@.inodes.len() && self@.inodes[k].is_none();
            lemma_first_index_none(0, limit as int, p);
        }
        None
    }

    /// The index of the first empty data block, the last block left out.
    pub fn find_empty_memory_block(&self) -> (index: Option<usize>)
        ensures
            match index {
                Some(b) => self@.first_free_block() == Some(b as int),
                None => self@.first_free_block().is_none(),
            },
    {
        if self.memory_blocks.len() == 0 {
            proof {
                let p = |k: int| 0 <= k < self@.blocks.len() && self@.blocks[k].is_none();
                lemma_first_index_none(0, -1, p);
            }
            return None;
        }
        let limit: usize = self.memory_blocks.len() - 1;
        let mut i: usize = 0;
        while i < limit
            invariant
                i <= limit,
                limit == self.memory_blocks@.len() - 1,
                forall|j: int| 0 <= j < i ==> (#[trigger] self@.blocks[j]).is_some(),
            decreases limit - i,
        {
            if self.memory_blocks[i].data.is_none() {
                proof {
                    let p = |k: int| 0 <= k < self@.blocks.len() && self@.blocks[k].is_none();
                    lemma_first_index_is(0, limit as int, p, i as int);
                }
                return Some(i);
            }
            i = i + 1;
        }
        proof {
            let p = |k: int| 0 <= k < self@.blocks.len() && self@.blocks[k].is_none();
            lemma_first_index_none(0, limit as int, p);
        }
        None
    }

    /// The index of the slot that inode number `ino` names.
    pub fn position(&self, ino: u64) -> (position: usize)
        requires
            self@.in_table(ino as int),
        ensures
            position == ino - 1,
            position < self.super_block@.len(),
            self@.inodes[position as int] == slot_view(self.super_block@[position as int]),
    {
        let _slots: usize = self.super_block.len();
        (ino - 1) as usize
    }

    /// The first reference slot of inode `ino` that holds nothing.
    pub fn find_empty_reference(&self, ino: u64) -> (slot: Option<usize>)
        requires
            self@.present(ino as int),
        ensures
            match slot {
                Some(s) => self@.free_reference_slot(ino as int) == Some(s as int),
                None => self@.free_reference_slot(ino as int).is_none(),
            },
    {
        let references = self.get_references(ino);
        let ghost refs = self@.inode(ino as int).references;
        let ghost p = |s: int| 0 <= s < refs.len() && refs[s].is_none();
        let mut i: usize = 0;
        while i < references.len()
            invariant
                i <= references@.len(),
                refs == references@,
                refs == self@.inode(ino as int).references,
                p == |s: int| 0 <= s < refs.len() && refs[s].is_none(),
                forall|j: int| 0 <= j < i ==> !(#[trigger] p(j)),
            decreases references@.len() - i,
        {
            if references[i].is_none() {
                proof {
                    lemma_first_index_is(0, refs.len() as int, p, i as int);
                }
                return Some(i);
            }
            i = i + 1;
        }
        proof {
            lemma_first_index_none(0, refs.len() as int, p);
        }
        None
    }

    /// Puts `inode` into the slot that its number names, whatever was there.
    pub fn store_inode(&mut self, inode: Inode)
        requires
            old(self)@.in_table(inode@.attributes.ino as int),
        ensures
            final(self)@ == old(self)@.with_inode(inode@.attributes.ino as int, Some(inode@)),
    {
        let position: usize = self.position(inode.attributes.ino);
        self.super_block[position] = Some(inode);
        assert(self@.inodes =~= old(self)@.inodes.update(position as int, Some(inode@)));
        assert(self@.blocks =~= old(self)@.blocks);
    }

    /// Puts `inode` into the slot that its number names, unless its written
    /// form is larger than a block: then the volume stays as it is. Tells
    /// whether the inode was put.
    pub fn write_inode(&mut self, inode: Inode) -> (written: bool)
        requires
            old(self)@.in_table(inode@.attributes.ino as int),
        ensures
            written == (encoded_size(inode@) <= old(self)@.block_size),
            final(self)@ == if written {
                old(self)@.with_inode(inode@.attributes.ino as int, Some(inode@))
            } else {
                old(self)@
            },
    {
        if serialized_size(&inode) > self.block_size as u64 {
            return false;
        }
        self.store_inode(inode);
        true
    }

    /// Empties the slot of inode `ino`. Data blocks and references stay as
    /// they are.
    pub fn remove_inode(&mut self, ino: u64)
        requires
            old(self)@.in_table(ino as int),
        ensures
            final(self)@ == old(self)@.with_inode(ino as int, None),
    {
        let position: usize = self.position(ino);
        self.super_block[position] = None;
        assert(self@.inodes =~= old(self)@.inodes.update(position as int, None));
        assert(self@.blocks =~= old(self)@.blocks);
    }

    /// The inode with number `ino`, if there is one.
    pub fn get_inode(&self, ino: u64) -> (out: Option<&Inode>)
        ensures
            match out {
                Some(inode) => self@.present(ino as int) && inode@ == self@.inode(ino as int),
                None => !self@.present(ino as int),
            },
    {
        if ino == 0 || ino > self.super_block.len() as u64 {
            return None;
        }
        let position: usize = self.position(ino);
        match &self.super_block[position] {
            Some(inode) => Some(inode),
            None => None,
        }
    }

    /// The references of inode `ino`.
    pub fn get_references(&self, ino: u64) -> (refs: &Vec<Option<usize>>)
        requires
            self@.present(ino as int),
        ensures
            refs@ == self@.inode(ino as int).references,
    {
        let position: usize = self.position(ino);
        let inode: &Inode = self.super_block[position].as_ref().unwrap();
        &inode.references
    }

    /// The body held in data block `block_position`, if the block is present.
    pub fn get_content_bytes(&self, block_position: usize) -> (data: &Option<Vec<u8>>)
        requires
            block_position < self@.blocks.len(),
        ensures
            match *data {
                Some(bytes) => self@.blocks[block_position as int] == Some(bytes@),
                None => self@.blocks[block_position as int].is_none(),
            },
    {
        &self.memory_blocks[block_position].data
    }

    /// Replaces data block `block_position` by one that holds `content`.
    pub fn write_content_bytes(&mut self, block_position: usize, content: Vec<u8>)
        requires
            block_position < old(self)@.blocks.len(),
            content@.len() <= old(self)@.block_size,
        ensures
            final(self)@ == old(self)@.with_block(block_position as int, Some(content@)),
    {
        self.memory_blocks[block_position] = MemoryBlock { data: Some(content) };
        assert(self@.blocks =~= old(self)@.blocks.update(block_position as int, Some(content@)));
        assert(self@.inodes =~= old(self)@.inodes);
    }

    /// Sets reference slot `reference` of inode `ino` to `value`.
    pub fn write_reference(&mut self, ino: u64, reference: usize, value: usize)
        requires
            old(self)@.present(ino as int),
            reference < old(self)@.inode(ino as int).references.len(),
        ensures
            final(self)@ == old(self)@.with_reference(ino as int, reference as int, Some(value)),
    {
        self.set_reference(ino, reference, Some(value));
    }

    /// Replaces what reference slot `reference` of inode `ino` holds.
    fn set_reference(&mut self, ino: u64, reference: usize, value: Option<usize>)
        requires
            old(self)@.present(ino as int),
            reference < old(self)@.inode(ino as int).references.len(),
        ensures
            final(self)@ == old(self)@.with_reference(ino as int, reference as int, value),
    {
        let position: usize = self.position(ino);
        match &mut self.super_block[position] {
            Some(inode) => {
                inode.references[reference] = value;
            },
            None => {},
        }
        assert(self@.inodes =~= old(self)@.with_reference(
            ino as int,
            reference as int,
            value,
        ).inodes);
        assert(self@.blocks =~= old(self)@.blocks);
    }

    /// Clears the first reference slot of inode `ino` that holds `reference`.
    pub fn remove_reference(&mut self, ino: u64, reference: usize)
        requires
            old(self)@.present(ino as int),
            old(self)@.reference_slot_of(ino as int, reference).is_some(),
        ensures
            final(self)@ == old(self)@.with_reference(
                ino as int,
                old(self)@.reference_slot_of(ino as int, reference).unwrap(),
                None,
            ),
    {
        let ghost refs = self@.inode(ino as int).references;
        let ghost p = |s: int| 0 <= s < refs.len() && refs[s] == Some(reference);
        let count: usize = self.get_references(ino).len();
        let mut found: Option<usize> = None;
        let mut i: usize = 0;
        while i < count && found.is_none()
            invariant
                i <= count,
                count == refs.len(),
                self@.present(ino as int),
                refs == self@.inode(ino as int).references,
                p == |s: int| 0 <= s < refs.len() && refs[s] == Some(reference),
                match found {
                    Some(s) => first_index(0, refs.len() as int, p) == Some(s as int),
                    None => forall|j: int| 0 <= j < i ==> !(#[trigger] p(j)),
                },
            decreases count - i + if found.is_none() { 1int } else { 0int },
        {
            let hit = match self.get_references(ino)[i] {
                Some(value) => value == reference,
                None => false,
            };
            if hit {
                proof {
                    lemma_first_index_is(0, refs.len() as int, p, i as int);
                }
                found = Some(i);
            } else {
                i = i + 1;
            }
        }
        match found {
            Some(slot) => {
                proof {
                    lemma_first_index(0, refs.len() as int, p);
                }
                self.set_reference(ino, slot, None);
            },
            None => {
                proof {
                    lemma_first_index_none(0, refs.len() as int, p);
                }
            },
        }
    }

    /// The first child of `parent`, in the order of its reference slots,
    /// whose name is `name` without the ASCII whitespace around it.
    pub fn find_inode_name(&self, parent_ino: u64, name: &[u8]) -> (out: Option<&Inode>)
        requires
            self@.present(parent_ino as int),
            self@.references_resolve(parent_ino as int),
        ensures
            match out {
                Some(inode) => {
                    &&& self@.find_child(parent_ino as int, trim(name@)).is_some()
                    &&& self@.present(self@.find_child(parent_ino as int, trim(name@)).unwrap())
                    &&& inode@ == self@.inode(
                        self@.find_child(parent_ino as int, trim(name@)).unwrap(),
                    )
                },
                None => self@.find_child(parent_ino as int, trim(name@)).is_none(),
            },
    {
        let references = self.get_references(parent_ino);
        let ghost wanted = trim(name@);
        let ghost p = |s: int| self@.names_child(parent_ino as int, s, wanted);
        let mut i: usize = 0;
        while i < references.len()
            invariant
                i <= references@.len(),
                self@.present(parent_ino as int),
                self@.references_resolve(parent_ino as int),
                references@ == self@.inode(parent_ino as int).references,
                wanted == trim(name@),
                p == |s: int| self@.names_child(parent_ino as int, s, wanted),
                forall|j: int| 0 <= j < i ==> !(#[trigger] p(j)),
            decreases references@.len() - i,
        {
            if let Some(child) = references[i] {
                assert(self@.present(child as int));
                match self.get_inode(child as u64) {
                    Some(inode) => {
                        if name_matches(&inode.name, name) {
                            proof {
                                lemma_first_index_is(0, references@.len() as int, p, i as int);
                            }
                            return Some(inode);
                        }
                    },
                    None => {},
                }
            }
            i = i + 1;
        }
        proof {
            lemma_first_index_none(0, references@.len() as int, p);
        }
        None
    }

    /// The inode with number `ino`, if there is one, to be changed in place.
    pub fn get_inode_mutable(&mut self, ino: u64) -> (out: Option<&mut Inode>)
        ensures
            match out {
                Some(inode) => {
                    &&& old(self)@.present(ino as int)
                    &&& (*inode)@ == old(self)@.inode(ino as int)
                    &&& final(self).super_block@ == old(self).super_block@.update(
                        ino - 1,
                        Some(*final(inode)),
                    )
                    &&& final(self).memory_blocks == old(self).memory_blocks
                    &&& final(self).max_files == old(self).max_files
                    &&& final(self).block_size == old(self).block_size
                    &&& final(self).root_path == old(self).root_path
                },
                None => !old(self)@.present(ino as int) && final(self)@ == old(self)@,
            },
    {
        if ino == 0 || ino > self.super_block.len() as u64 {
            return None;
        }
        let position: usize = self.position(ino);
        if self.super_block[position].is_none() {
            return None;
        }
        self.super_block[position].as_mut()
    }

    /// Whether every present reference of inode `ino` names a present inode.
    pub fn check_references(&self, ino: u64) -> (ok: bool)
        requires
            self@.present(ino as int),
        ensures
            ok == self@.references_resolve(ino as int),
    {
        let references = self.get_references(ino);
        let mut i: usize = 0;
        while i < references.len()
            invariant
                i <= references@.len(),
                references@ == self@.inode(ino as int).references,
                forall|s: int|
                    0 <= s < i && (#[trigger] references@[s]).is_some() ==> self@.present(
                        references@[s].unwrap() as int,
                    ),
            decreases references@.len() - i,
        {
            if let Some(child) = references[i] {
                if self.get_inode(child as u64).is_none() {
                    return false;
                }
            }
            i = i + 1;
        }
        true
    }
}

} // verus!
