//! Keeping a volume as QR symbols and bringing it back.
//!
//! A snapshot holds one image for every inode but the root; the bodies of
//! files are not kept. Restoring puts every inode that is read back directly
//! below the root, with an empty body.

use vstd::prelude::*;
use crate::codec::{decode_inode, decoded, encode_inode, encoded, DecodeError, EncodeError};
use crate::disk::{lemma_first_index, Disk, DiskView};
use crate::fs::{fits, QRFS};
use crate::inode::{Inode, InodeView, MAX_FILES_DIRECTORY};
use crate::qr::{render_payload, rendered, scan_image, scanned, LumaImage, ScanError};

verus! {

/// The decimal digits of `n`, as ASCII.
pub open spec fn decimal(n: nat) -> Seq<u8>
    decreases n,
{
    if n < 10 {
        seq![(48 + n) as u8]
    } else {
        decimal(n / 10).push((48 + n % 10) as u8)
    }
}

/// The name of the file that holds the image with number `n`: `inode`, the
/// number in decimal, `.png`.
pub open spec fn file_name(n: nat) -> Seq<u8> {
    seq![105u8, 110u8, 111u8, 100u8, 101u8] + decimal(n) + seq![46u8, 112u8, 110u8, 103u8]
}

/// Appends the decimal digits of `n` to `out`.
pub fn push_decimal(out: &mut Vec<u8>, n: usize)
    ensures
        final(out)@ == old(out)@ + decimal(n as nat),
    decreases n,
{
    if n >= 10 {
        push_decimal(out, n / 10);
    }
    out.push(48u8 + (n % 10) as u8);
    assert(out@ =~= old(out)@ + decimal(n as nat));
}

/// The name of the file that holds the image with number `n`.
pub fn snapshot_file_name(n: usize) -> (name: Vec<u8>)
    ensures
        name@ == file_name(n as nat),
{
    let mut name: Vec<u8> = Vec::new();
    name.push(105u8);
    name.push(110u8);
    name.push(111u8);
    name.push(100u8);
    name.push(101u8);
    assert(name@ =~= seq![105u8, 110u8, 111u8, 100u8, 101u8]);
    push_decimal(&mut name, n);
    name.push(46u8);
    name.push(112u8);
    name.push(110u8);
    name.push(103u8);
    assert(name@ =~= file_name(n as nat));
    name
}

/// The inodes that a snapshot keeps, out of the first `upto` slots of the
/// table: every present inode whose number is not 1, in table order.
pub open spec fn kept_inodes(d: DiskView, upto: int) -> Seq<InodeView>
    decreases upto,
{
    if upto <= 0 {
        Seq::empty()
    } else {
        let before = kept_inodes(d, upto - 1);
        match d.inodes[upto - 1] {
            Some(inode) => if inode.attributes.ino != 1 {
                before.push(inode)
            } else {
                before
            },
            None => before,
        }
    }
}

/// The value of one payload of a snapshot.
pub open spec fn payload_view(payload: Result<Vec<u8>, EncodeError>) -> Option<Seq<u8>> {
    match payload {
        Ok(bytes) => Some(bytes@),
        Err(_) => None,
    }
}

/// The values of the payloads of a snapshot.
pub open spec fn payloads_view(payloads: Seq<Result<Vec<u8>, EncodeError>>) -> Seq<
    Option<Seq<u8>>,
> {
    Seq::new(payloads.len(), |i: int| payload_view(payloads[i]))
}

/// Why an inode did not make it into a snapshot.
#[derive(Clone, Copy, Debug, PartialEq, Eq, Structural)]
pub enum SnapshotError {
    /// The inode could not be written as bytes.
    Encode,
    /// The bytes could not be drawn as one symbol.
    Render,
}

/// One file of a snapshot: its name, and the image to store under it or
/// the reason why there is none.
#[derive(Debug)]
pub struct SnapshotFile {
    pub name: Vec<u8>,
    pub image: Result<LumaImage, SnapshotError>,
}

/// What a snapshot holds for a payload: the image of the payload.
pub open spec fn image_of(payload: Option<Seq<u8>>) -> Result<
    (u32, u32, Seq<u8>),
    SnapshotError,
> {
    match payload {
        Some(bytes) => match rendered(bytes) {
            Some(image) => Ok(image),
            None => Err(SnapshotError::Render),
        },
        None => Err(SnapshotError::Encode),
    }
}

/// The value of the image of one file of a snapshot.
pub open spec fn image_view(image: Result<LumaImage, SnapshotError>) -> Result<
    (u32, u32, Seq<u8>),
    SnapshotError,
> {
    match image {
        Ok(i) => Ok((i.width, i.height, i.pixels@)),
        Err(e) => Err(e),
    }
}

/// Whether `files` is the snapshot of `payloads`: file `n` is called after
/// `n` and holds the image of payload `n`.
pub open spec fn is_snapshot_of(files: Seq<SnapshotFile>, payloads: Seq<Option<Seq<u8>>>) -> bool {
    &&& files.len() == payloads.len()
    &&& forall|n: int|
        0 <= n < files.len() ==> {
            &&& (#[trigger] files[n]).name@ == file_name(n as nat)
            &&& image_view(files[n].image) == image_of(payloads[n])
            &&& files[n].image.is_ok() ==> files[n].image.unwrap().wf()
        }
}

impl Disk {
    /// The payloads of a snapshot: one for every present inode whose number
    /// is not 1, in table order. An inode that cannot be written as bytes
    /// leaves an error in its place.
    pub fn encode_inodes(&self) -> (out: Vec<Result<Vec<u8>, EncodeError>>)
        ensures
            payloads_view(out@) == kept_inodes(self@, self@.inodes.len() as int).map_values(
                |inode: InodeView| encoded(inode),
            ),
    {
        let mut out: Vec<Result<Vec<u8>, EncodeError>> = Vec::new();
        let mut i: usize = 0;
        proof {
            self.lemma_view();
            assert(payloads_view(out@) =~= kept_inodes(self@, 0).map_values(
                |inode: InodeView| encoded(inode),
            ));
        }
        while i < self.super_block.len()
            invariant
                i <= self.super_block@.len(),
                self@.inodes.len() == self.super_block@.len(),
                payloads_view(out@) == kept_inodes(self@, i as int).map_values(
                    |inode: InodeView| encoded(inode),
                ),
            decreases self.super_block@.len() - i,
        {
            proof {
                self.lemma_view();
            }
            let ghost before = payloads_view(out@);
            match &self.super_block[i] {
                Some(inode) => {
                    if inode.attributes.ino != 1 {
                        let payload = encode_inode(inode);
                        out.push(payload);
                        assert(payloads_view(out@) =~= before.push(encoded(inode@)));
                        assert(kept_inodes(self@, i + 1).map_values(
                            |inode: InodeView| encoded(inode),
                        ) =~= kept_inodes(self@, i as int).map_values(
                            |inode: InodeView| encoded(inode),
                        ).push(encoded(inode@)));
                    }
                },
                None => {},
            }
            i = i + 1;
        }
        out
    }

    /// The files of a snapshot of this volume.
    pub fn save_inodes(&self) -> (files: Vec<SnapshotFile>)
        ensures
            is_snapshot_of(
                files@,
                kept_inodes(self@, self@.inodes.len() as int).map_values(
                    |inode: InodeView| encoded(inode),
                ),
            ),
    {
        let payloads = self.encode_inodes();
        transform_inodes_to_qr(&payloads)
    }
}

/// Draws every payload of a snapshot as a QR symbol. File `n` is called
/// `inode<n>.png`, whether or not there is an image for it.
pub fn transform_inodes_to_qr(payloads: &Vec<Result<Vec<u8>, EncodeError>>) -> (files: Vec<
    SnapshotFile,
>)
    ensures
        is_snapshot_of(files@, payloads_view(payloads@)),
{
    let mut files: Vec<SnapshotFile> = Vec::new();
    let mut counter: usize = 0;
    while counter < payloads.len()
        invariant
            counter <= payloads@.len(),
            files@.len() == counter,
            forall|n: int|
                0 <= n < counter ==> {
                    &&& (#[trigger] files@[n]).name@ == file_name(n as nat)
                    &&& image_view(files@[n].image) == image_of(payloads_view(payloads@)[n])
                    &&& files@[n].image.is_ok() ==> files@[n].image.unwrap().wf()
                },
        decreases payloads@.len() - counter,
    {
        let image = match &payloads[counter] {
            Ok(bytes) => match render_payload(bytes) {
                Ok(image) => Ok(image),
                Err(_) => Err(SnapshotError::Render),
            },
            Err(_) => Err(SnapshotError::Encode),
        };
        let name = snapshot_file_name(counter);
        files.push(SnapshotFile { name, image });
        counter = counter + 1;
    }
    files
}

/// Why an image did not give an inode.
#[derive(Clone, Copy, Debug, PartialEq, Eq, Structural)]
pub enum ImportError {
    /// No payload was read from the image.
    Scan(ScanError),
    /// The payload is not an inode record.
    Decode(DecodeError),
}

/// Why an inode was not put back into the volume.
#[derive(Clone, Copy, Debug, PartialEq, Eq, Structural)]
pub enum RestoreError {
    /// The root has no free reference slot.
    RootFull,
    /// The inode's number names no slot of the table, or the inode does not
    /// carry the full set of reference slots.
    BadRecord,
    /// The block pool has no block for the inode's body.
    NoBlock,
    /// The inode's written form is larger than a block.
    TooLarge,
}

/// The inode that an image gives: what its payload decodes to.
pub open spec fn imported(width: u32, height: u32, pixels: Seq<u8>) -> Result<
    InodeView,
    ImportError,
> {
    match scanned(width, height, pixels) {
        Ok(payload) => match decoded(payload) {
            Ok(inode) => Ok(inode),
            Err(e) => Err(ImportError::Decode(e)),
        },
        Err(e) => Err(ImportError::Scan(e)),
    }
}

/// The value of what an image gave.
pub open spec fn import_view(r: Result<Inode, ImportError>) -> Result<InodeView, ImportError> {
    match r {
        Ok(inode) => Ok(inode@),
        Err(e) => Err(e),
    }
}

/// Whether `inode` can be put back into `d`, and if not, why.
pub open spec fn restore_outcome(d: DiskView, inode: InodeView) -> Result<(), RestoreError> {
    if d.free_reference_slot(1).is_none() {
        Err(RestoreError::RootFull)
    } else if !(inode.wf() && d.in_table(inode.attributes.ino as int)) {
        Err(RestoreError::BadRecord)
    } else if inode.attributes.ino > d.blocks.len() {
        Err(RestoreError::NoBlock)
    } else if !fits(d, inode) {
        Err(RestoreError::TooLarge)
    } else {
        Ok(())
    }
}

/// The volume after `inode` was put back: the inode sits in the slot that
/// its number names, the first free reference slot of the root holds its
/// number, and the data block with the index of its slot holds an empty
/// body. Where the inode cannot be put back the volume is as before.
pub open spec fn restore_volume(d: DiskView, inode: InodeView) -> DiskView {
    if restore_outcome(d, inode).is_ok() {
        let ino = inode.attributes.ino as int;
        d.with_inode(ino, Some(inode)).with_reference(
            1,
            d.free_reference_slot(1).unwrap(),
            Some(ino as usize),
        ).with_block(ino - 1, Some(Seq::empty()))
    } else {
        d
    }
}

/// The volume after the first `upto` of `inodes` were put back, one after
/// the other.
pub open spec fn restore_all(d: DiskView, inodes: Seq<InodeView>, upto: int) -> DiskView
    decreases upto,
{
    if upto <= 0 {
        d
    } else {
        restore_volume(restore_all(d, inodes, upto - 1), inodes[upto - 1])
    }
}

/// Reads an inode from each image: scans the image for its payload and
/// decodes the payload.
pub fn translate_inodes_qr(images: &Vec<LumaImage>) -> (out: Vec<Result<Inode, ImportError>>)
    requires
        forall|i: int| 0 <= i < images@.len() ==> (#[trigger] images@[i]).scannable(),
    ensures
        out@.len() == images@.len(),
        forall|i: int|
            0 <= i < out@.len() ==> import_view(#[trigger] out@[i]) == imported(
                images@[i].width,
                images@[i].height,
                images@[i].pixels@,
            ),
{
    let mut out: Vec<Result<Inode, ImportError>> = Vec::new();
    let mut i: usize = 0;
    while i < images.len()
        invariant
            i <= images@.len(),
            out@.len() == i,
            forall|k: int| 0 <= k < images@.len() ==> (#[trigger] images@[k]).scannable(),
            forall|k: int|
                0 <= k < i ==> import_view(#[trigger] out@[k]) == imported(
                    images@[k].width,
                    images@[k].height,
                    images@[k].pixels@,
                ),
        decreases images@.len() - i,
    {
        let inode = match scan_image(&images[i]) {
            Ok(payload) => match decode_inode(&payload) {
                Ok(inode) => Ok(inode),
                Err(e) => Err(ImportError::Decode(e)),
            },
            Err(e) => Err(ImportError::Scan(e)),
        };
        out.push(inode);
        i = i + 1;
    }
    out
}

/// Reads an inode from each payload.
pub fn decode_inodes(payloads: &Vec<Vec<u8>>) -> (out: Vec<Result<Inode, DecodeError>>)
    ensures
        out@.len() == payloads@.len(),
        forall|i: int|
            0 <= i < out@.len() ==> match #[trigger] out@[i] {
                Ok(inode) => decoded(payloads@[i]@) == Ok::<InodeView, DecodeError>(inode@),
                Err(e) => decoded(payloads@[i]@) == Err::<InodeView, DecodeError>(e),
            },
{
    let mut out: Vec<Result<Inode, DecodeError>> = Vec::new();
    let mut i: usize = 0;
    while i < payloads.len()
        invariant
            i <= payloads@.len(),
            out@.len() == i,
            forall|k: int|
                0 <= k < i ==> match #[trigger] out@[k] {
                    Ok(inode) => decoded(payloads@[k]@) == Ok::<InodeView, DecodeError>(inode@),
                    Err(e) => decoded(payloads@[k]@) == Err::<InodeView, DecodeError>(e),
                },
        decreases payloads@.len() - i,
    {
        let inode = decode_inode(&payloads[i]);
        out.push(inode);
        i = i + 1;
    }
    out
}

impl QRFS {
    /// Puts one inode back into the volume, directly below the root and
    /// with an empty body.
    pub fn restore_inode(&mut self, inode: Inode) -> (out: Result<(), RestoreError>)
        requires
            old(self).disk@.wf(),
            old(self).disk@.present(1),
        ensures
            out == restore_outcome(old(self).disk@, inode@),
            final(self).disk@ == restore_volume(old(self).disk@, inode@),
            final(self).disk@.wf(),
            final(self).disk@.present(1),
            final(self).uid == old(self).uid,
            final(self).gid == old(self).gid,
    {
        let slot = match self.disk.find_empty_reference(1) {
            Some(slot) => slot,
            None => {
                return Err(RestoreError::RootFull);
            },
        };
        proof {
            let refs = old(self).disk@.inode(1).references;
            lemma_first_index(
                0,
                refs.len() as int,
                |s: int| 0 <= s < refs.len() && refs[s].is_none(),
            );
        }
        let ino = inode.attributes.ino;
        if inode.references.len() != MAX_FILES_DIRECTORY || ino == 0 || ino
            > self.disk.super_block.len() as u64 {
            proof {
                self.disk.lemma_view();
            }
            return Err(RestoreError::BadRecord);
        }
        proof {
            self.disk.lemma_view();
        }
        if ino > self.disk.memory_blocks.len() as u64 {
            return Err(RestoreError::NoBlock);
        }
        if !self.disk.write_inode(inode) {
            return Err(RestoreError::TooLarge);
        }
        self.disk.write_reference(1, slot, ino as usize);
        let content: Vec<u8> = Vec::new();
        self.disk.write_content_bytes((ino - 1) as usize, content);
        Ok(())
    }

    /// Puts the inodes back into the volume, one after the other, and tells
    /// of each whether it was put. An inode that cannot be put back is left
    /// out; those after it are still tried.
    pub fn restore(&mut self, inodes: &Vec<Inode>) -> (out: Vec<Result<(), RestoreError>>)
        requires
            old(self).disk@.wf(),
            old(self).disk@.present(1),
        ensures
            out@.len() == inodes@.len(),
            forall|k: int|
                0 <= k < out@.len() ==> #[trigger] out@[k] == restore_outcome(
                    restore_all(old(self).disk@, inode_views(inodes@), k),
                    inodes@[k]@,
                ),
            final(self).disk@ == restore_all(
                old(self).disk@,
                inode_views(inodes@),
                inodes@.len() as int,
            ),
            final(self).disk@.wf(),
            final(self).disk@.present(1),
            final(self).uid == old(self).uid,
            final(self).gid == old(self).gid,
    {
        let mut out: Vec<Result<(), RestoreError>> = Vec::new();
        let mut i: usize = 0;
        while i < inodes.len()
            invariant
                i <= inodes@.len(),
                out@.len() == i,
                self.disk@.wf(),
                self.disk@.present(1),
                self.uid == old(self).uid,
                self.gid == old(self).gid,
                self.disk@ == restore_all(old(self).disk@, inode_views(inodes@), i as int),
                forall|k: int|
                    0 <= k < i ==> #[trigger] out@[k] == restore_outcome(
                        restore_all(old(self).disk@, inode_views(inodes@), k),
                        inodes@[k]@,
                    ),
            decreases inodes@.len() - i,
        {
            let inode = inodes[i].duplicate();
            let outcome = self.restore_inode(inode);
            out.push(outcome);
            i = i + 1;
        }
        out
    }
}

/// The values of a run of inodes.
pub open spec fn inode_views(inodes: Seq<Inode>) -> Seq<InodeView> {
    Seq::new(inodes.len(), |i: int| inodes[i]@)
}

} // verus!
