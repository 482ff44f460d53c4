//! Laws that relate the operations to each other.

use vstd::prelude::*;
use crate::disk::{
    lemma_first_index, lemma_first_index_is, lemma_first_index_none, lemma_first_index_some,
    DiskView,
};
use crate::codec::{encoded_size, lemma_references_size_absent, lemma_references_size_update};
use crate::disk::root_inode;
use crate::fs::{
    create_reply, create_volume, fits, mkdir_reply, mkdir_volume, new_directory, new_file,
    rename_volume, rmdir_volume, write_volume, Errno,
};
use crate::inode::{empty_references, InodeView, TimespecDef};
use crate::persist::{restore_all, restore_outcome, restore_volume};
use crate::invariants::{
    child_added, lemma_create_keeps_sound, lemma_link_added, lemma_mkdir_keeps_sound,
    lemma_rename_keeps_sound, lemma_rmdir_keeps_sound, lemma_write_keeps_sound,
};
use crate::names::trim;

verus! {

/// Renaming a child to the name under which it was found leaves the volume
/// as it is. The name must not carry whitespace around it: what is looked up
/// is the trimmed name, what is stored is the name as given.
pub proof fn lemma_rename_to_same_name(d: DiskView, parent: int, name: Seq<u8>)
    requires
        d.wf(),
        d.present(parent),
        d.references_resolve(parent),
        trim(name) == name,
    ensures
        rename_volume(d, parent, name, name) == d,
{
    match d.find_child(parent, trim(name)) {
        Some(child) => {
            lemma_first_index(
                0,
                d.inode(parent).references.len() as int,
                |s: int| d.names_child(parent, s, trim(name)),
            );
            assert(d.present(child));
            assert(d.inode(child).name == name);
            assert(rename_volume(d, parent, name, name).inodes =~= d.inodes);
        },
        None => {},
    }
}

/// Once every reference slot of the parent is taken, `mkdir` fails with
/// `ENOSPC` and changes nothing.
pub proof fn lemma_mkdir_in_full_directory(
    d: DiskView,
    parent: int,
    name: Seq<u8>,
    now: TimespecDef,
    uid: u32,
    gid: u32,
)
    requires
        forall|s: int|
            0 <= s < d.inode(parent).references.len() ==> (#[trigger] d.inode(
                parent,
            ).references[s]).is_some(),
    ensures
        mkdir_reply(d, parent, name, now, uid, gid) == Err::<crate::fs::EntryReply, Errno>(
            Errno::ENOSPC,
        ),
        mkdir_volume(d, parent, name, now, uid, gid) == d,
{
    let refs = d.inode(parent).references;
    lemma_first_index_none(0, refs.len() as int, |s: int| 0 <= s < refs.len() && refs[s].is_none());
}

/// Once the inode table or the block pool is taken up to its last slot, and
/// the parent still has a free reference slot, `create` fails with `ENOSPC`
/// and changes nothing.
pub proof fn lemma_create_at_capacity(
    d: DiskView,
    parent: int,
    name: Seq<u8>,
    flags: u32,
    now: TimespecDef,
    uid: u32,
    gid: u32,
)
    requires
        d.free_reference_slot(parent).is_some(),
        (forall|i: int| 0 <= i < d.inodes.len() - 1 ==> (#[trigger] d.inodes[i]).is_some()) || (
        forall|b: int| 0 <= b < d.blocks.len() - 1 ==> (#[trigger] d.blocks[b]).is_some()),
    ensures
        create_reply(d, parent, name, flags, now, uid, gid) == Err::<crate::fs::CreateReply, Errno>(
            Errno::ENOSPC,
        ),
        create_volume(d, parent, name, flags, now, uid, gid) == d,
{
    if forall|i: int| 0 <= i < d.inodes.len() - 1 ==> (#[trigger] d.inodes[i]).is_some() {
        lemma_first_index_none(
            0,
            d.inodes.len() - 1,
            |i: int| 0 <= i < d.inodes.len() && d.inodes[i].is_none(),
        );
    } else {
        lemma_first_index_none(
            0,
            d.blocks.len() - 1,
            |i: int| 0 <= i < d.blocks.len() && d.blocks[i].is_none(),
        );
    }
}

/// Once every reference slot of the parent is taken, `create` fails with
/// `EIO` and changes nothing.
pub proof fn lemma_create_in_full_directory(
    d: DiskView,
    parent: int,
    name: Seq<u8>,
    flags: u32,
    now: TimespecDef,
    uid: u32,
    gid: u32,
)
    requires
        forall|s: int|
            0 <= s < d.inode(parent).references.len() ==> (#[trigger] d.inode(
                parent,
            ).references[s]).is_some(),
    ensures
        create_reply(d, parent, name, flags, now, uid, gid) == Err::<crate::fs::CreateReply, Errno>(
            Errno::EIO,
        ),
        create_volume(d, parent, name, flags, now, uid, gid) == d,
{
    let refs = d.inode(parent).references;
    lemma_first_index_none(0, refs.len() as int, |s: int| 0 <= s < refs.len() && refs[s].is_none());
}

/// A child that was added under a name that no child of the parent carried
/// is what that name resolves to, and the only child that carries it.
pub proof fn lemma_added_child_is_found(
    d: DiskView,
    after: DiskView,
    parent: int,
    slot: int,
    ino: int,
    fresh: InodeView,
)
    requires
        child_added(d, after, parent, slot, ino, fresh),
        d.references_resolve(parent),
        forall|s: int| !#[trigger] d.names_child(parent, s, fresh.name),
    ensures
        after.find_child(parent, fresh.name) == Some(ino),
        forall|s: int| #[trigger] after.names_child(parent, s, fresh.name) ==> s == slot,
{
    lemma_link_added(d, after, parent, slot, ino, fresh);
    let refs = d.inode(parent).references;
    assert forall|s: int| #[trigger] after.names_child(parent, s, fresh.name) implies s
        == slot by {
        if s != slot {
            assert(refs[s].is_some());
            let c = refs[s].unwrap() as int;
            assert(d.present(c));
            assert(c != ino);
            if c != parent {
                assert(after.inode(c) == d.inode(c));
            }
            assert(d.names_child(parent, s, fresh.name));
        }
    }
    assert(after.names_child(parent, slot, fresh.name));
    lemma_first_index_is(
        0,
        after.inode(parent).references.len() as int,
        |s: int| after.names_child(parent, s, fresh.name),
        slot,
    );
}

/// After `create` has made a file under a name that carries no whitespace
/// around it and that no child of the parent carried, the name resolves to
/// the new file, and to no other child.
pub proof fn lemma_create_then_find(
    d: DiskView,
    parent: int,
    name: Seq<u8>,
    flags: u32,
    now: TimespecDef,
    uid: u32,
    gid: u32,
)
    requires
        d.wf(),
        d.present(parent),
        d.references_resolve(parent),
        trim(name) == name,
        forall|s: int| !#[trigger] d.names_child(parent, s, name),
        create_reply(d, parent, name, flags, now, uid, gid).is_ok(),
    ensures
        create_volume(d, parent, name, flags, now, uid, gid).find_child(parent, trim(name))
            == Some(
            create_reply(d, parent, name, flags, now, uid, gid).unwrap().attributes.ino as int,
        ),
        forall|s: int| #[trigger]
            create_volume(d, parent, name, flags, now, uid, gid).names_child(parent, s, name) ==> s
                == d.free_reference_slot(parent).unwrap(),
{
    let after = create_volume(d, parent, name, flags, now, uid, gid);
    let ino = d.first_free_slot().unwrap() + 1;
    let block = d.first_free_block().unwrap();
    let slot = d.free_reference_slot(parent).unwrap();
    let refs = d.inode(parent).references;
    lemma_first_index(
        0,
        d.inodes.len() - 1,
        |i: int| 0 <= i < d.inodes.len() && d.inodes[i].is_none(),
    );
    lemma_first_index(0, refs.len() as int, |s: int| 0 <= s < refs.len() && refs[s].is_none());
    lemma_first_index(
        0,
        d.blocks.len() - 1,
        |i: int| 0 <= i < d.blocks.len() && d.blocks[i].is_none(),
    );
    let fresh = new_file(ino as u64, name, block as usize, now, uid, gid, flags);
    let mid = d.with_inode(ino, Some(fresh)).with_block(block, Some(Seq::empty()));
    assert(mid.inode(parent) == d.inode(parent));
    assert((ino as usize) as int == ino);
    lemma_added_child_is_found(d, after, parent, slot, ino, fresh);
}

/// An operation that changes the volume, with its arguments.
pub enum Operation {
    Mkdir { parent: int, name: Seq<u8>, now: TimespecDef },
    Create { parent: int, name: Seq<u8>, flags: u32, now: TimespecDef },
    Write { ino: int, data: Seq<u8> },
    Rmdir { parent: int, name: Seq<u8> },
    Rename { parent: int, name: Seq<u8>, newname: Seq<u8> },
}

/// The volume after one operation by the owner `uid`, `gid`.
pub open spec fn apply(d: DiskView, op: Operation, uid: u32, gid: u32) -> DiskView {
    match op {
        Operation::Mkdir { parent, name, now } => mkdir_volume(d, parent, name, now, uid, gid),
        Operation::Create { parent, name, flags, now } => create_volume(
            d,
            parent,
            name,
            flags,
            now,
            uid,
            gid,
        ),
        Operation::Write { ino, data } => write_volume(d, ino, data),
        Operation::Rmdir { parent, name } => rmdir_volume(d, parent, name),
        Operation::Rename { parent, name, newname } => rename_volume(d, parent, name, newname),
    }
}

/// Whether an operation is valid on a volume.
///
/// A child is made or looked for in a directory. A new name is not yet
/// carried by a child of that directory. A body is written to a block that
/// belongs to a regular file. A child that is removed is not the only
/// regular file that names its data block.
pub open spec fn valid(d: DiskView, op: Operation) -> bool {
    match op {
        Operation::Mkdir { parent, name, now } => d.is_dir(parent) && d.name_is_free(parent, name),
        Operation::Create { parent, name, flags, now } => d.is_dir(parent) && d.name_is_free(
            parent,
            name,
        ),
        Operation::Write { ino, data } => d.present(ino) ==> ino <= d.blocks.len()
            && d.block_has_owner(ino - 1),
        Operation::Rmdir { parent, name } => d.is_dir(parent) && d.child_shares_blocks(
            parent,
            name,
        ),
        Operation::Rename { parent, name, newname } => d.is_dir(parent) && d.name_is_free_beside(
            parent,
            d.find_child(parent, trim(name)),
            newname,
        ),
    }
}

/// The volume after the first `upto` of `ops`, one after the other.
pub open spec fn run(d: DiskView, ops: Seq<Operation>, upto: int, uid: u32, gid: u32) -> DiskView
    decreases upto,
{
    if upto <= 0 {
        d
    } else {
        apply(run(d, ops, upto - 1, uid, gid), ops[upto - 1], uid, gid)
    }
}

/// In a sound volume every reference of a directory names a present inode.
pub proof fn lemma_directory_resolves(d: DiskView, dir: int)
    requires
        d.graph_sound(),
        d.is_dir(dir),
    ensures
        d.references_resolve(dir),
{
    let refs = d.inode(dir).references;
    assert forall|s: int| 0 <= s < refs.len() && (#[trigger] refs[s]).is_some() implies d.present(
        refs[s].unwrap() as int,
    ) by {
        assert(d.links(dir, s, refs[s].unwrap() as int));
    }
}

/// A valid operation on a sound volume leaves a sound volume.
pub proof fn lemma_operation_keeps_sound(d: DiskView, op: Operation, uid: u32, gid: u32)
    requires
        d.sound(),
        valid(d, op),
    ensures
        apply(d, op, uid, gid).sound(),
{
    match op {
        Operation::Mkdir { parent, name, now } => {
            lemma_mkdir_keeps_sound(d, parent, name, now, uid, gid);
        },
        Operation::Create { parent, name, flags, now } => {
            lemma_create_keeps_sound(d, parent, name, flags, now, uid, gid);
        },
        Operation::Write { ino, data } => {
            lemma_write_keeps_sound(d, ino, data);
        },
        Operation::Rmdir { parent, name } => {
            lemma_directory_resolves(d, parent);
            lemma_rmdir_keeps_sound(d, parent, name);
        },
        Operation::Rename { parent, name, newname } => {
            lemma_directory_resolves(d, parent);
            lemma_rename_keeps_sound(d, parent, name, newname);
        },
    }
}

/// After every operation of a sequence of operations, each valid on the
/// volume that it meets, a volume that was sound at the start is sound.
pub proof fn lemma_operations_keep_sound(
    d: DiskView,
    ops: Seq<Operation>,
    upto: int,
    uid: u32,
    gid: u32,
)
    requires
        d.sound(),
        0 <= upto <= ops.len(),
        forall|k: int| 0 <= k < upto ==> valid(#[trigger] run(d, ops, k, uid, gid), ops[k]),
    ensures
        run(d, ops, upto, uid, gid).sound(),
    decreases upto,
{
    if upto > 0 {
        lemma_operations_keep_sound(d, ops, upto - 1, uid, gid);
        let before = run(d, ops, upto - 1, uid, gid);
        assert(valid(before, ops[upto - 1]));
        lemma_operation_keeps_sound(before, ops[upto - 1], uid, gid);
    }
}

/// The root is stamped as any directory that `mkdir` makes: empty, with
/// no block.
pub proof fn lemma_root_is_a_made_directory(now: TimespecDef, uid: u32, gid: u32)
    ensures
        root_inode(now, uid, gid) == new_directory(1, seq![46u8], now, uid, gid),
        root_inode(now, uid, gid).attributes.blocks == 0,
{
}

/// No operation changes the number of blocks that an inode was stamped
/// with: an inode that is there before and after carries the same number.
pub proof fn lemma_operation_keeps_stamps(
    d: DiskView,
    op: Operation,
    uid: u32,
    gid: u32,
    which: int,
)
    requires
        d.wf(),
        d.present(which),
        apply(d, op, uid, gid).present(which),
        match op {
            Operation::Mkdir { parent, name, now } => d.present(parent),
            Operation::Create { parent, name, flags, now } => d.present(parent),
            Operation::Write { ino, data } => true,
            Operation::Rmdir { parent, name } => d.present(parent) && d.references_resolve(parent),
            Operation::Rename { parent, name, newname } => d.present(parent)
                && d.references_resolve(parent),
        },
    ensures
        apply(d, op, uid, gid).inode(which).attributes.blocks == d.inode(which).attributes.blocks,
        apply(d, op, uid, gid).inode(which).attributes.kind == d.inode(which).attributes.kind,
{
    lemma_first_index(
        0,
        d.inodes.len() - 1,
        |i: int| 0 <= i < d.inodes.len() && d.inodes[i].is_none(),
    );
    match op {
        Operation::Mkdir { parent, name, now } => {
            if mkdir_reply(d, parent, name, now, uid, gid).is_ok() {
                let ino = d.first_free_slot().unwrap() + 1;
                let made = d.with_inode(ino, Some(new_directory(ino as u64, name, now, uid, gid)));
                assert(!d.present(ino));
                assert(made.inode(parent) == d.inode(parent));
            }
        },
        Operation::Create { parent, name, flags, now } => {
            if create_reply(d, parent, name, flags, now, uid, gid).is_ok() {
                let ino = d.first_free_slot().unwrap() + 1;
                let block = d.first_free_block().unwrap();
                let made = d.with_inode(
                    ino,
                    Some(new_file(ino as u64, name, block as usize, now, uid, gid, flags)),
                ).with_block(block, Some(Seq::empty()));
                assert(!d.present(ino));
                assert(made.inode(parent) == d.inode(parent));
            }
        },
        Operation::Write { ino, data } => {},
        Operation::Rmdir { parent, name } => {
            let refs = d.inode(parent).references;
            lemma_first_index(0, refs.len() as int, |s: int| d.names_child(parent, s, trim(name)));
            if d.find_child(parent, trim(name)).is_some() {
                let child = d.find_child(parent, trim(name)).unwrap();
                let holds = |k: int| 0 <= k < refs.len() && refs[k] == Some(child as usize);
                lemma_first_index_some(
                    0,
                    refs.len() as int,
                    holds,
                    d.child_slot(parent, trim(name)).unwrap(),
                );
                lemma_first_index(0, refs.len() as int, holds);
            }
        },
        Operation::Rename { parent, name, newname } => {
            let refs = d.inode(parent).references;
            lemma_first_index(0, refs.len() as int, |s: int| d.names_child(parent, s, trim(name)));
        },
    }
}

/// A directory that `mkdir` makes takes 178 bytes and its name when written;
/// a file that `create` makes takes 8 more, for its one reference.
pub proof fn lemma_fresh_sizes(
    ino: u64,
    name: Seq<u8>,
    block: usize,
    now: TimespecDef,
    uid: u32,
    gid: u32,
    flags: u32,
)
    ensures
        encoded_size(new_directory(ino, name, now, uid, gid)) == 178 + name.len(),
        encoded_size(new_file(ino, name, block, now, uid, gid, flags)) == 186 + name.len(),
{
    lemma_references_size_absent(empty_references());
    lemma_references_size_update(empty_references(), 0, Some(block));
}

/// `mkdir` replies with the new directory wherever the parent has a free
/// reference slot, the inode table has a free slot, and a block holds 178
/// bytes and the name.
pub proof fn lemma_mkdir_replies(
    d: DiskView,
    parent: int,
    name: Seq<u8>,
    now: TimespecDef,
    uid: u32,
    gid: u32,
)
    requires
        d.free_reference_slot(parent).is_some(),
        d.first_free_slot().is_some(),
        178 + name.len() <= d.block_size,
    ensures
        mkdir_reply(d, parent, name, now, uid, gid).is_ok(),
{
    lemma_fresh_sizes((d.first_free_slot().unwrap() + 1) as u64, name, 0, now, uid, gid, 0);
}

/// `create` replies with the new file wherever the parent has a free
/// reference slot, the inode table has a free slot, the block pool has a
/// free block, and a block holds 186 bytes and the name.
pub proof fn lemma_create_replies(
    d: DiskView,
    parent: int,
    name: Seq<u8>,
    flags: u32,
    now: TimespecDef,
    uid: u32,
    gid: u32,
)
    requires
        d.free_reference_slot(parent).is_some(),
        d.first_free_slot().is_some(),
        d.first_free_block().is_some(),
        186 + name.len() <= d.block_size,
    ensures
        create_reply(d, parent, name, flags, now, uid, gid).is_ok(),
{
    lemma_fresh_sizes(
        (d.first_free_slot().unwrap() + 1) as u64,
        name,
        d.first_free_block().unwrap() as usize,
        now,
        uid,
        gid,
        flags,
    );
}

/// What putting an inode back gives: the inode sits in its slot as it was
/// read, the first free reference slot of the root holds its number, and the
/// block of its slot holds an empty body. Everything else is as before.
pub proof fn lemma_restore_puts_back(d: DiskView, inode: InodeView)
    requires
        d.wf(),
        d.present(1),
        restore_outcome(d, inode).is_ok(),
        inode.attributes.ino != 1,
    ensures
        ({
            let after = restore_volume(d, inode);
            let ino = inode.attributes.ino as int;
            let slot = d.free_reference_slot(1).unwrap();
            &&& after.wf()
            &&& after.present(ino)
            &&& after.inode(ino) == inode
            &&& after.blocks == d.blocks.update(ino - 1, Some(Seq::<u8>::empty()))
            &&& 0 <= slot < d.inode(1).references.len()
            &&& d.inode(1).references[slot].is_none()
            &&& forall|s: int| 0 <= s < slot ==> (#[trigger] d.inode(1).references[s]).is_some()
            &&& after.present(1)
            &&& after.inode(1).references == d.inode(1).references.update(slot, Some(ino as usize))
            &&& after.inode(1).name == d.inode(1).name
            &&& after.inode(1).attributes == d.inode(1).attributes
            &&& forall|i: int|
                d.present(i) && i != 1 && i != ino ==> after.present(i) && #[trigger] after.inode(i)
                    == d.inode(i)
        }),
{
    let refs = d.inode(1).references;
    lemma_first_index(0, refs.len() as int, |s: int| 0 <= s < refs.len() && refs[s].is_none());
    let ino = inode.attributes.ino as int;
    let slot = d.free_reference_slot(1).unwrap();
    let mid = d.with_inode(ino, Some(inode));
    assert(mid.inode(1) == d.inode(1));
    assert((ino as usize) as int == ino);
    assert forall|s: int| 0 <= s < slot implies (#[trigger] refs[s]).is_some() by {
        let free = |s: int| 0 <= s < refs.len() && refs[s].is_none();
        assert(!free(s));
    }
    let linked = mid.with_reference(1, slot, Some(ino as usize));
    assert(linked.inode(ino) == inode);
    let after = restore_volume(d, inode);
    assert(after == linked.with_block(ino - 1, Some(Seq::empty())));
    assert(after.inodes == linked.inodes);
}

/// Two files that are put back into a volume whose root has no child, one
/// after the other, come to stand in the first two reference slots of the
/// root, each in the slot of the table that its number names and as it was
/// read, and each with an empty body.
pub proof fn lemma_restore_two_files(d: DiskView, first: InodeView, second: InodeView)
    requires
        d.wf(),
        d.present(1),
        forall|s: int|
            0 <= s < d.inode(1).references.len() ==> (#[trigger] d.inode(
                1,
            ).references[s]).is_none(),
        first.wf(),
        second.wf(),
        first.attributes.ino != 1,
        second.attributes.ino != 1,
        first.attributes.ino != second.attributes.ino,
        first.attributes.ino <= d.inodes.len(),
        second.attributes.ino <= d.inodes.len(),
        first.attributes.ino <= d.blocks.len(),
        second.attributes.ino <= d.blocks.len(),
        fits(d, first),
        fits(d, second),
    ensures
        ({
            let after = restore_all(d, seq![first, second], 2);
            let a = first.attributes.ino as int;
            let b = second.attributes.ino as int;
            &&& restore_outcome(d, first).is_ok()
            &&& restore_outcome(restore_volume(d, first), second).is_ok()
            &&& after.wf()
            &&& after.inode(1).references == d.inode(1).references.update(
                0,
                Some(a as usize),
            ).update(1, Some(b as usize))
            &&& after.present(a) && after.inode(a) == first
            &&& after.present(b) && after.inode(b) == second
            &&& after.blocks[a - 1] == Some(Seq::<u8>::empty())
            &&& after.blocks[b - 1] == Some(Seq::<u8>::empty())
        }),
{
    let refs = d.inode(1).references;
    let free = |s: int| 0 <= s < refs.len() && refs[s].is_none();
    assert(free(0));
    lemma_first_index_is(0, refs.len() as int, free, 0);
    lemma_restore_puts_back(d, first);
    let mid = restore_volume(d, first);
    let refs2 = mid.inode(1).references;
    let free2 = |s: int| 0 <= s < refs2.len() && refs2[s].is_none();
    assert(!free2(0));
    assert(free2(1));
    lemma_first_index_is(0, refs2.len() as int, free2, 1);
    lemma_restore_puts_back(mid, second);
    let ops = seq![first, second];
    assert(restore_all(d, ops, 0) == d);
    assert(restore_all(d, ops, 1) == mid);
    assert(restore_all(d, ops, 2) == restore_volume(mid, second));
}

} // verus!
