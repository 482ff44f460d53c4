use qrfs::fs::{Errno, QRFS, LISTING_COOKIE};
use qrfs::inode::{FileTypeDef, TimespecDef};

fn now() -> TimespecDef {
    TimespecDef { sec: 1_700_000_000, nsec: 500 }
}

fn mount() -> QRFS {
    QRFS::new_at(String::from("/mnt/qr"), now(), 1000, 1000)
}

#[test]
fn empty_volume_lists_only_the_root_lines() {
    let fs = mount();
    let entries = fs.readdir(1, 0).unwrap();
    assert_eq!(entries.len(), 2);
    assert_eq!((entries[0].ino, entries[0].name.as_slice(), entries[0].kind), (1, &b"."[..], FileTypeDef::Directory));
    assert_eq!((entries[1].ino, entries[1].name.as_slice(), entries[1].kind), (1, &b".."[..], FileTypeDef::Directory));
    assert_eq!(entries[0].offset, 0);
    assert_eq!(entries[1].offset, 1);
}

#[test]
fn mkdir_adds_one_line_to_the_listing() {
    let mut fs = mount();
    let reply = fs.mkdir_at(1, b"docs", now()).unwrap();
    assert_eq!(reply.attributes.ino, 2);
    assert_eq!(reply.attributes.kind, FileTypeDef::Directory);
    assert_eq!(reply.attributes.perm, 0o755);
    assert_eq!(reply.attributes.blocks, 0);
    assert_eq!(reply.attributes.size, 0);
    assert_eq!(reply.attributes.uid, 1000);
    assert_eq!(reply.attributes.crtime, now());
    assert_eq!(reply.ttl, now());
    assert_eq!(reply.generation, 0);
    let entries = fs.readdir(1, 0).unwrap();
    assert_eq!(entries.len(), 3);
    assert_eq!(entries[2].name, b"docs".to_vec());
    assert_eq!(entries[2].kind, FileTypeDef::Directory);
    assert_eq!(entries[2].ino, 2);
    assert_eq!(entries[2].offset, LISTING_COOKIE);
}

#[test]
fn create_write_read_round_trip() {
    let mut fs = mount();
    let created = fs.create_at(1, b"hello.txt", 0, now()).unwrap();
    assert_eq!(created.attributes.ino, 2);
    assert_eq!(created.fh, 2);
    assert_eq!(created.flags, 0);
    assert_eq!(created.generation, 1);
    assert_eq!(created.attributes.kind, FileTypeDef::RegularFile);
    assert_eq!(fs.write(2, b"Hello World!\n"), Ok(13));
    let body = fs.read(2).unwrap();
    assert_eq!(
        body.as_slice(),
        &[0x48, 0x65, 0x6c, 0x6c, 0x6f, 0x20, 0x57, 0x6f, 0x72, 0x6c, 0x64, 0x21, 0x0a]
    );
    assert_eq!(fs.getattr_at(2, now()).unwrap().attributes.size, 13);
}

#[test]
fn rename_moves_the_name() {
    let mut fs = mount();
    fs.create_at(1, b"hello.txt", 0, now()).unwrap();
    assert_eq!(fs.rename(1, b"hello.txt", 1, b"hi.txt"), Ok(()));
    assert_eq!(fs.lookup_at(1, b"hi.txt", now()).unwrap().attributes.ino, 2);
    assert_eq!(fs.lookup_at(1, b"hello.txt", now()).err(), Some(Errno::ENOENT));
}

#[test]
fn rmdir_removes_the_directory() {
    let mut fs = mount();
    fs.mkdir_at(1, b"docs", now()).unwrap();
    assert_eq!(fs.rmdir(1, b"docs"), Ok(()));
    assert_eq!(fs.lookup_at(1, b"docs", now()).err(), Some(Errno::ENOENT));
    let entries = fs.readdir(1, 0).unwrap();
    assert_eq!(entries.len(), 2);
    assert!(entries.iter().all(|e| e.name != b"docs".to_vec()));
    assert_eq!(fs.getattr_at(2, now()).err(), Some(Errno::ENOENT));
}
