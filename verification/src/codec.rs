//! The byte form of an inode record.
//!
//! A record is the inode's name, its attribute block and its references, in
//! that order, written and read by `bincode` in its default configuration.
//! The kind of the inode travels as a number: the position of the kind in the
//! declaration of `FileTypeDef`, counted from 0.

use vstd::prelude::*;
use crate::inode::{FileAttrDef, FileTypeDef, Inode, InodeView, TimespecDef};

verus! {

/// A point in time as it is written: seconds, then nanoseconds.
pub type TimeRecord = (i64, i32);

/// The attribute block as it is written, field by field in declaration order,
/// the kind as its number.
pub type AttrRecord = (
    u64,
    u64,
    u64,
    TimeRecord,
    TimeRecord,
    TimeRecord,
    TimeRecord,
    u32,
    u16,
    u32,
    u32,
    u32,
    u32,
    u32,
);

/// Why a payload could not be read as an inode record.
#[derive(Clone, Copy, Debug, PartialEq, Eq, Structural)]
pub enum DecodeError {
    /// The bytes do not have the layout of a record.
    Malformed,
    /// The record names a kind that does not exist.
    UnknownKind,
}

/// The record could not be written as bytes.
#[derive(Clone, Copy, Debug, PartialEq, Eq, Structural)]
pub struct EncodeError;

#[verifier::external_type_specification]
#[verifier::external_body]
pub struct ExBincodeErrorKind(bincode::ErrorKind);

/// The bytes that `bincode::serialize` gives for a record, if it gives any.
pub uninterp spec fn bincode_bytes(
    name: Seq<u8>,
    attributes: AttrRecord,
    references: Seq<Option<usize>>,
) -> Option<Seq<u8>>;

/// The record that `bincode::deserialize` reads from `bytes`, if it reads one.
pub uninterp spec fn bincode_record(bytes: Seq<u8>) -> Option<
    (Seq<u8>, AttrRecord, Seq<Option<usize>>),
>;

/// Bytes that a length takes when written.
pub const LENGTH_SIZE: u64 = 8;

/// Bytes that an attribute block takes when written: three numbers of 8
/// bytes, four points in time of 12, the kind in 4, the permissions in 2, and
/// five numbers of 4.
pub const ATTR_SIZE: u64 = 98;

/// Bytes that the references take when written, their count left aside: one
/// tag byte for each, and 8 more for each that is present.
pub open spec fn references_size(references: Seq<Option<usize>>) -> nat
    decreases references.len(),
{
    if references.len() == 0 {
        0
    } else {
        references_size(references.drop_last()) + if references.last().is_some() {
            9nat
        } else {
            1nat
        }
    }
}

/// Bytes that a record takes when written: the length of the name and the
/// name, the attribute block, the count of the references and the
/// references.
pub open spec fn record_size(name: Seq<u8>, references: Seq<Option<usize>>) -> nat {
    (LENGTH_SIZE + name.len() + ATTR_SIZE + LENGTH_SIZE + references_size(references)) as nat
}

/// Calls `bincode::serialize` on the record made of the three parts.
///
/// Trusted: the outcome is a function of the record alone; the bytes are as
/// many as `bincode` counts for the record; and, as the crate's documentation
/// shows for its pair of functions, bytes that were written from a record
/// read back as that record.
#[verifier::external_body]
fn bincode_serialize(
    name: &Vec<u8>,
    attributes: AttrRecord,
    references: &Vec<Option<usize>>,
) -> (out: Result<Vec<u8>, Box<bincode::ErrorKind>>)
    ensures
        match out {
            Ok(bytes) => {
                &&& bincode_bytes(name@, attributes, references@) == Some(bytes@)
                &&& bincode_record(bytes@) == Some((name@, attributes, references@))
                &&& bytes@.len() == record_size(name@, references@)
            },
            Err(_) => bincode_bytes(name@, attributes, references@).is_none(),
        },
{
    bincode::serialize(&(name, attributes, references))
}

/// Calls `bincode::deserialize` for a record of three parts.
///
/// Trusted: the outcome is a function of the bytes alone.
#[verifier::external_body]
fn bincode_deserialize(bytes: &Vec<u8>) -> (out: Result<
    (Vec<u8>, AttrRecord, Vec<Option<usize>>),
    Box<bincode::ErrorKind>,
>)
    ensures
        match out {
            Ok(record) => bincode_record(bytes@) == Some((record.0@, record.1, record.2@)),
            Err(_) => bincode_record(bytes@).is_none(),
        },
{
    bincode::deserialize(&bytes[..])
}

/// Calls `bincode::serialized_size` on the record made of the three parts.
///
/// Trusted: for a record of these parts the count never fails, and it is the
/// sum of what `bincode` counts for each part: 8 bytes for a length, the
/// width of each number, the bytes of the name, and a tag byte for each
/// reference with 8 more where it is present.
#[verifier::external_body]
fn bincode_serialized_size(
    name: &Vec<u8>,
    attributes: AttrRecord,
    references: &Vec<Option<usize>>,
) -> (out: Result<u64, Box<bincode::ErrorKind>>)
    ensures
        out.is_ok(),
        out.unwrap() == record_size(name@, references@),
{
    bincode::serialized_size(&(name, attributes, references))
}

/// The number under which a kind is written.
pub open spec fn kind_tag(kind: FileTypeDef) -> u32 {
    match kind {
        FileTypeDef::NamedPipe => 0,
        FileTypeDef::CharDevice => 1,
        FileTypeDef::BlockDevice => 2,
        FileTypeDef::Directory => 3,
        FileTypeDef::RegularFile => 4,
        FileTypeDef::Symlink => 5,
        FileTypeDef::Socket => 6,
    }
}

/// The kind that a number stands for, if it stands for one.
pub open spec fn kind_of_tag(tag: u32) -> Option<FileTypeDef> {
    if tag == 0 {
        Some(FileTypeDef::NamedPipe)
    } else if tag == 1 {
        Some(FileTypeDef::CharDevice)
    } else if tag == 2 {
        Some(FileTypeDef::BlockDevice)
    } else if tag == 3 {
        Some(FileTypeDef::Directory)
    } else if tag == 4 {
        Some(FileTypeDef::RegularFile)
    } else if tag == 5 {
        Some(FileTypeDef::Symlink)
    } else if tag == 6 {
        Some(FileTypeDef::Socket)
    } else {
        None
    }
}

/// The written form of a point in time.
pub open spec fn time_record(t: TimespecDef) -> TimeRecord {
    (t.sec, t.nsec)
}

/// The written form of an attribute block.
pub open spec fn attr_record(a: FileAttrDef) -> AttrRecord {
    (
        a.ino,
        a.size,
        a.blocks,
        time_record(a.atime),
        time_record(a.mtime),
        time_record(a.ctime),
        time_record(a.crtime),
        kind_tag(a.kind),
        a.perm,
        a.nlink,
        a.uid,
        a.gid,
        a.rdev,
        a.flags,
    )
}

/// The attribute block that a written form stands for; none where its kind
/// number stands for no kind.
pub open spec fn attr_of_record(r: AttrRecord) -> Option<FileAttrDef> {
    match kind_of_tag(r.7) {
        Some(kind) => Some(
            FileAttrDef {
                ino: r.0,
                size: r.1,
                blocks: r.2,
                atime: TimespecDef { sec: r.3.0, nsec: r.3.1 },
                mtime: TimespecDef { sec: r.4.0, nsec: r.4.1 },
                ctime: TimespecDef { sec: r.5.0, nsec: r.5.1 },
                crtime: TimespecDef { sec: r.6.0, nsec: r.6.1 },
                kind,
                perm: r.8,
                nlink: r.9,
                uid: r.10,
                gid: r.11,
                rdev: r.12,
                flags: r.13,
            },
        ),
        None => None,
    }
}

/// The inode that a record of three parts stands for.
pub open spec fn inode_of_record(
    name: Seq<u8>,
    attributes: AttrRecord,
    references: Seq<Option<usize>>,
) -> Result<InodeView, DecodeError> {
    match attr_of_record(attributes) {
        Some(a) => Ok(InodeView { name, attributes: a, references }),
        None => Err(DecodeError::UnknownKind),
    }
}

/// The bytes of an inode: what `bincode` writes for its record.
pub open spec fn encoded(inode: InodeView) -> Option<Seq<u8>> {
    bincode_bytes(inode.name, attr_record(inode.attributes), inode.references)
}

/// The inode that a payload holds: what `bincode` reads from it, with the
/// kind number turned back into a kind.
pub open spec fn decoded(bytes: Seq<u8>) -> Result<InodeView, DecodeError> {
    match bincode_record(bytes) {
        Some(record) => inode_of_record(record.0, record.1, record.2),
        None => Err(DecodeError::Malformed),
    }
}

/// The number of bytes that an inode takes when written.
pub open spec fn encoded_size(inode: InodeView) -> nat {
    record_size(inode.name, inode.references)
}

/// The references take at least one byte each and at most nine.
pub proof fn lemma_references_size_bounds(references: Seq<Option<usize>>)
    ensures
        references.len() <= references_size(references) <= 9 * references.len(),
    decreases references.len(),
{
    if references.len() > 0 {
        lemma_references_size_bounds(references.drop_last());
    }
}

/// References that are all absent take one byte each.
pub proof fn lemma_references_size_absent(references: Seq<Option<usize>>)
    requires
        forall|i: int| 0 <= i < references.len() ==> (#[trigger] references[i]).is_none(),
    ensures
        references_size(references) == references.len(),
    decreases references.len(),
{
    if references.len() > 0 {
        lemma_references_size_absent(references.drop_last());
    }
}

/// Setting one reference changes the size by at most eight bytes.
pub proof fn lemma_references_size_update(
    references: Seq<Option<usize>>,
    slot: int,
    value: Option<usize>,
)
    requires
        0 <= slot < references.len(),
    ensures
        references_size(references.update(slot, value)) + if references[slot].is_some() {
            9int
        } else {
            1int
        } == references_size(references) + if value.is_some() {
            9int
        } else {
            1int
        },
    decreases references.len(),
{
    let after = references.update(slot, value);
    if slot == references.len() - 1 {
        assert(after.drop_last() =~= references.drop_last());
    } else {
        assert(after.drop_last() =~= references.drop_last().update(slot, value));
        lemma_references_size_update(references.drop_last(), slot, value);
    }
}

/// A kind's number and back give the kind; an attribute block's written form
/// and back give the block.
pub proof fn lemma_attr_record_round_trip(a: FileAttrDef)
    ensures
        kind_of_tag(kind_tag(a.kind)) == Some(a.kind),
        attr_of_record(attr_record(a)) == Some(a),
{
}

/// The number under which `kind` is written.
pub fn kind_to_tag(kind: FileTypeDef) -> (tag: u32)
    ensures
        tag == kind_tag(kind),
{
    match kind {
        FileTypeDef::NamedPipe => 0,
        FileTypeDef::CharDevice => 1,
        FileTypeDef::BlockDevice => 2,
        FileTypeDef::Directory => 3,
        FileTypeDef::RegularFile => 4,
        FileTypeDef::Symlink => 5,
        FileTypeDef::Socket => 6,
    }
}

/// The kind that `tag` stands for, if any.
pub fn kind_from_tag(tag: u32) -> (kind: Option<FileTypeDef>)
    ensures
        kind == kind_of_tag(tag),
{
    if tag == 0 {
        Some(FileTypeDef::NamedPipe)
    } else if tag == 1 {
        Some(FileTypeDef::CharDevice)
    } else if tag == 2 {
        Some(FileTypeDef::BlockDevice)
    } else if tag == 3 {
        Some(FileTypeDef::Directory)
    } else if tag == 4 {
        Some(FileTypeDef::RegularFile)
    } else if tag == 5 {
        Some(FileTypeDef::Symlink)
    } else if tag == 6 {
        Some(FileTypeDef::Socket)
    } else {
        None
    }
}

/// The written form of the attribute block `a`.
pub fn attr_to_record(a: &FileAttrDef) -> (r: AttrRecord)
    ensures
        r == attr_record(*a),
{
    (
        a.ino,
        a.size,
        a.blocks,
        (a.atime.sec, a.atime.nsec),
        (a.mtime.sec, a.mtime.nsec),
        (a.ctime.sec, a.ctime.nsec),
        (a.crtime.sec, a.crtime.nsec),
        kind_to_tag(a.kind),
        a.perm,
        a.nlink,
        a.uid,
        a.gid,
        a.rdev,
        a.flags,
    )
}

/// Turns a record that was read into an inode. Fails only where the kind
/// number stands for no kind.
pub fn inode_from_record(
    name: Vec<u8>,
    attributes: AttrRecord,
    references: Vec<Option<usize>>,
) -> (out: Result<Inode, DecodeError>)
    ensures
        match out {
            Ok(inode) => inode_of_record(name@, attributes, references@) == Ok::<
                InodeView,
                DecodeError,
            >(inode@),
            Err(e) => inode_of_record(name@, attributes, references@) == Err::<
                InodeView,
                DecodeError,
            >(e),
        },
{
    match kind_from_tag(attributes.7) {
        Some(kind) => {
            let a = FileAttrDef {
                ino: attributes.0,
                size: attributes.1,
                blocks: attributes.2,
                atime: TimespecDef { sec: attributes.3.0, nsec: attributes.3.1 },
                mtime: TimespecDef { sec: attributes.4.0, nsec: attributes.4.1 },
                ctime: TimespecDef { sec: attributes.5.0, nsec: attributes.5.1 },
                crtime: TimespecDef { sec: attributes.6.0, nsec: attributes.6.1 },
                kind,
                perm: attributes.8,
                nlink: attributes.9,
                uid: attributes.10,
                gid: attributes.11,
                rdev: attributes.12,
                flags: attributes.13,
            };
            Ok(Inode { name, attributes: a, references })
        },
        None => Err(DecodeError::UnknownKind),
    }
}

/// Writes an inode as bytes.
///
/// The bytes are those that `bincode` gives for the inode's record, and they
/// decode to the inode again.
pub fn encode_inode(inode: &Inode) -> (out: Result<Vec<u8>, EncodeError>)
    ensures
        match out {
            Ok(bytes) => {
                &&& encoded(inode@) == Some(bytes@)
                &&& decoded(bytes@) == Ok::<InodeView, DecodeError>(inode@)
            },
            Err(_) => encoded(inode@).is_none(),
        },
{
    let record = attr_to_record(&inode.attributes);
    match bincode_serialize(&inode.name, record, &inode.references) {
        Ok(bytes) => {
            proof {
                lemma_attr_record_round_trip(inode.attributes);
            }
            Ok(bytes)
        },
        Err(_) => Err(EncodeError),
    }
}

/// Reads an inode from a payload.
///
/// Fails with `Malformed` exactly where `bincode` reads no record from the
/// bytes, and with `UnknownKind` exactly where it reads one whose kind number
/// stands for no kind.
pub fn decode_inode(bytes: &Vec<u8>) -> (out: Result<Inode, DecodeError>)
    ensures
        match out {
            Ok(inode) => decoded(bytes@) == Ok::<InodeView, DecodeError>(inode@),
            Err(e) => decoded(bytes@) == Err::<InodeView, DecodeError>(e),
        },
{
    match bincode_deserialize(bytes) {
        Ok(record) => inode_from_record(record.0, record.1, record.2),
        Err(_) => Err(DecodeError::Malformed),
    }
}

/// The number of bytes that `inode` takes when written.
pub fn serialized_size(inode: &Inode) -> (out: u64)
    ensures
        out == encoded_size(inode@),
{
    let record = attr_to_record(&inode.attributes);
    match bincode_serialized_size(&inode.name, record, &inode.references) {
        Ok(size) => size,
        Err(_) => 0,
    }
}

} // verus!
