use qrfs::codec::decode_inode;
use qrfs::fs::QRFS;
use qrfs::inode::{FileAttrDef, FileTypeDef, Inode, TimespecDef};
use qrfs::persist::{
    decode_inodes, snapshot_file_name, transform_inodes_to_qr, translate_inodes_qr, ImportError,
    RestoreError, SnapshotError,
};
use qrfs::qr::{LumaImage, ScanError};

fn now() -> TimespecDef {
    TimespecDef { sec: 1_700_000_000, nsec: 500 }
}

fn later() -> TimespecDef {
    TimespecDef { sec: 1_800_000_000, nsec: 7 }
}

fn mount(at: TimespecDef) -> QRFS {
    QRFS::new_at(String::from("/mnt/qr"), at, 1000, 1000)
}

#[test]
fn snapshot_then_restore_brings_the_files_back_empty() {
    let mut fs = mount(now());
    let a = fs.create_at(1, b"a.txt", 3, now()).unwrap();
    let b = fs.create_at(1, b"b.txt", 0, now()).unwrap();
    assert_eq!(fs.write(2, b"first body"), Ok(10));
    assert_eq!(fs.write(3, b"second"), Ok(6));
    let size_a = fs.getattr_at(2, now()).unwrap().attributes;
    let size_b = fs.getattr_at(3, now()).unwrap().attributes;

    let files = fs.disk.save_inodes();
    assert_eq!(files.len(), 2);
    assert_eq!(files[0].name, b"inode0.png".to_vec());
    assert_eq!(files[1].name, b"inode1.png".to_vec());
    let images: Vec<LumaImage> = files.into_iter().map(|f| f.image.unwrap()).collect();

    let mut fresh = mount(later());
    let inodes: Vec<Inode> =
        translate_inodes_qr(&images).into_iter().map(|r| r.unwrap()).collect();
    assert_eq!(fresh.restore(&inodes), vec![Ok(()), Ok(())]);

    let listing = fresh.readdir(1, 0).unwrap();
    assert_eq!(listing.len(), 4);
    assert_eq!((listing[2].ino, listing[2].name.clone()), (2, b"a.txt".to_vec()));
    assert_eq!((listing[3].ino, listing[3].name.clone()), (3, b"b.txt".to_vec()));
    assert_eq!(listing[2].kind, FileTypeDef::RegularFile);

    let got_a = fresh.lookup_at(1, b"a.txt", later()).unwrap().attributes;
    let got_b = fresh.lookup_at(1, b"b.txt", later()).unwrap().attributes;
    assert_eq!(got_a, size_a);
    assert_eq!(got_b, size_b);
    assert_eq!(got_a.flags, a.attributes.flags);
    assert_eq!(got_b.crtime, b.attributes.crtime);
    assert_eq!(got_a.size, 10);

    assert_eq!(fresh.read(2).unwrap().len(), 0);
    assert_eq!(fresh.read(3).unwrap().len(), 0);
}

#[test]
fn snapshot_leaves_the_root_out_and_numbers_from_zero() {
    let mut fs = mount(now());
    assert_eq!(fs.disk.encode_inodes().len(), 0);
    fs.mkdir_at(1, b"docs", now()).unwrap();
    fs.create_at(2, b"deep", 0, now()).unwrap();
    fs.mkdir_at(1, b"more", now()).unwrap();
    let payloads = fs.disk.encode_inodes();
    assert_eq!(payloads.len(), 3);
    let names: Vec<Vec<u8>> = payloads
        .iter()
        .map(|p| decode_inode(p.as_ref().unwrap()).unwrap().name)
        .collect();
    assert_eq!(names, vec![b"docs".to_vec(), b"deep".to_vec(), b"more".to_vec()]);
    let plain: Vec<Vec<u8>> = payloads.iter().map(|p| p.clone().unwrap()).collect();
    let back = decode_inodes(&plain);
    assert_eq!(back.len(), 3);
    assert_eq!(back[1].as_ref().unwrap().attributes.ino, 3);
}

#[test]
fn file_names_count_in_decimal() {
    assert_eq!(snapshot_file_name(0), b"inode0.png".to_vec());
    assert_eq!(snapshot_file_name(9), b"inode9.png".to_vec());
    assert_eq!(snapshot_file_name(10), b"inode10.png".to_vec());
    assert_eq!(snapshot_file_name(1205), b"inode1205.png".to_vec());
}

#[test]
fn unrenderable_payload_keeps_its_number() {
    let payloads = vec![Ok(vec![1u8; 10]), Ok(vec![0u8; 5000]), Ok(vec![2u8; 10])];
    let files = transform_inodes_to_qr(&payloads);
    assert_eq!(files.len(), 3);
    assert!(files[0].image.is_ok());
    assert_eq!(files[1].image.as_ref().err(), Some(&SnapshotError::Render));
    assert_eq!(files[1].name, b"inode1.png".to_vec());
    assert!(files[2].image.is_ok());
    assert_eq!(files[2].name, b"inode2.png".to_vec());
}

#[test]
fn images_without_inode_are_reported() {
    let blank = LumaImage { width: 40, height: 40, pixels: vec![255u8; 1600] };
    let junk = qrfs::qr::render_payload(&b"not an inode".to_vec()).unwrap();
    let out = translate_inodes_qr(&vec![blank, junk]);
    assert_eq!(out[0].as_ref().err(), Some(&ImportError::Scan(ScanError::NoSymbol)));
    assert!(matches!(out[1], Err(ImportError::Decode(_))));
}

fn loose_inode(ino: u64, references: usize) -> Inode {
    let attributes = FileAttrDef {
        ino,
        size: 0,
        blocks: 1,
        atime: now(),
        mtime: now(),
        ctime: now(),
        crtime: now(),
        kind: FileTypeDef::RegularFile,
        perm: 0o755,
        nlink: 0,
        uid: 0,
        gid: 0,
        rdev: 0,
        flags: 0,
    };
    Inode { name: b"x".to_vec(), attributes, references: vec![None; references] }
}

#[test]
fn restore_refuses_what_does_not_fit_the_volume() {
    let mut fs = mount(now());
    assert_eq!(fs.restore_inode(loose_inode(0, 64)), Err(RestoreError::BadRecord));
    assert_eq!(fs.restore_inode(loose_inode(5, 3)), Err(RestoreError::BadRecord));
    assert_eq!(fs.restore_inode(loose_inode(1025, 64)), Err(RestoreError::BadRecord));
    assert_eq!(fs.restore_inode(loose_inode(5, 64)), Ok(()));
    assert_eq!(fs.lookup_at(1, b"x", now()).unwrap().attributes.ino, 5);
    for ino in 6..(6 + 63) {
        assert_eq!(fs.restore_inode(loose_inode(ino, 64)), Ok(()));
    }
    assert_eq!(fs.restore_inode(loose_inode(100, 64)), Err(RestoreError::RootFull));
}

/// Writes an image as the bytes of a PNG file and reads it back as grayscale.
fn through_png(image: LumaImage) -> LumaImage {
    let buffer: image::GrayImage =
        image::ImageBuffer::from_raw(image.width, image.height, image.pixels).unwrap();
    let mut png: Vec<u8> = Vec::new();
    image::DynamicImage::ImageLuma8(buffer)
        .write_to(&mut std::io::Cursor::new(&mut png), image::ImageFormat::Png)
        .unwrap();
    assert_eq!(&png[1..4], b"PNG");
    let gray = image::load_from_memory(&png).unwrap().into_luma8();
    LumaImage { width: gray.width(), height: gray.height(), pixels: gray.into_raw() }
}

#[test]
fn snapshot_survives_the_png_format() {
    let mut fs = mount(now());
    fs.create_at(1, b"one", 0, now()).unwrap();
    fs.create_at(1, b"two", 0, now()).unwrap();
    let kept = fs.getattr_at(3, now()).unwrap().attributes;
    let images: Vec<LumaImage> =
        fs.disk.save_inodes().into_iter().map(|f| through_png(f.image.unwrap())).collect();
    let mut fresh = mount(later());
    let inodes: Vec<Inode> =
        translate_inodes_qr(&images).into_iter().map(|r| r.unwrap()).collect();
    assert_eq!(fresh.restore(&inodes), vec![Ok(()), Ok(())]);
    assert_eq!(fresh.lookup_at(1, b"two", later()).unwrap().attributes, kept);
    assert_eq!(fresh.lookup_at(1, b"one", later()).unwrap().attributes.ino, 2);
    assert_eq!(fresh.read(3).unwrap().len(), 0);
}
