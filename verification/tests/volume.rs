use qrfs::disk::{Disk, INODE_SLOT_SIZE};
use qrfs::fs::{Errno, StatfsReply, QRFS};
use qrfs::codec::{encode_inode, serialized_size};
use qrfs::inode::{stamp_attributes, FileAttrDef, FileTypeDef, Inode, TimespecDef};
use qrfs::names::{byte_is_space, name_matches, trim_bounds};
use qrfs::persist::RestoreError;

fn now() -> TimespecDef {
    TimespecDef { sec: 1_700_000_000, nsec: 500 }
}

fn mount() -> QRFS {
    QRFS::new_at(String::from("/mnt/qr"), now(), 1000, 1001)
}

fn small(slots: usize, blocks: usize) -> QRFS {
    let block_size = slots * INODE_SLOT_SIZE;
    let disk = Disk::new(String::from("/"), block_size * (blocks + 1), block_size, now(), 7, 8);
    QRFS { disk, uid: 7, gid: 8 }
}

/// The trimmed name of a child, as the volume compares names.
fn trimmed(name: &[u8]) -> Vec<u8> {
    let (start, end) = trim_bounds(name);
    name[start..end].to_vec()
}

/// Checks by inspection everything that must hold of a volume.
fn assert_sound(disk: &Disk) {
    let table = &disk.super_block;
    let root = table[0].as_ref().expect("root present");
    assert_eq!(root.attributes.ino, 1);
    assert_eq!(root.attributes.kind, FileTypeDef::Directory);
    let mut parents = vec![0usize; table.len() + 1];
    let mut owners = vec![0usize; disk.memory_blocks.len()];
    for (i, slot) in table.iter().enumerate() {
        let inode = match slot {
            Some(inode) => inode,
            None => continue,
        };
        assert_eq!(inode.attributes.ino, i as u64 + 1);
        assert_eq!(inode.references.len(), 64);
        match inode.attributes.kind {
            FileTypeDef::Directory => {
                let mut names: Vec<Vec<u8>> = Vec::new();
                for child in inode.references.iter().flatten() {
                    let found = table[*child - 1].as_ref().expect("reference resolves");
                    parents[*child] += 1;
                    names.push(trimmed(&found.name));
                }
                let count = names.len();
                names.sort();
                names.dedup();
                assert_eq!(names.len(), count, "names are unique");
            }
            FileTypeDef::RegularFile => {
                let block = inode.references[0].expect("file has a block");
                assert!(disk.memory_blocks[block].data.is_some());
                owners[block] += 1;
            }
            _ => {}
        }
    }
    assert_eq!(parents[1], 0);
    assert!(parents.iter().all(|n| *n <= 1));
    for (b, block) in disk.memory_blocks.iter().enumerate() {
        assert_eq!(block.data.is_some(), owners[b] > 0, "block {}", b);
    }
}

#[test]
fn fresh_volume_has_the_default_sizes() {
    let fs = mount();
    assert_eq!(fs.disk.max_files, 1024);
    assert_eq!(fs.disk.block_size, 1024 * 184);
    assert_eq!(fs.disk.super_block.len(), 1024);
    assert_eq!(fs.disk.memory_blocks.len(), 5697);
    assert_eq!(fs.disk.root_path, "/mnt/qr");
    let root = fs.disk.get_inode(1).unwrap();
    assert_eq!(root.name, b".".to_vec());
    assert_eq!(root.attributes.kind, FileTypeDef::Directory);
    assert_eq!(root.attributes.blocks, 0);
    assert_eq!(root.attributes.perm, 0o755);
    assert_eq!((root.attributes.uid, root.attributes.gid), (1000, 1001));
    assert_eq!(root.attributes.atime, now());
    assert!(root.references.iter().all(|r| r.is_none()));
    assert!(fs.disk.super_block[1..].iter().all(|s| s.is_none()));
    assert!(fs.disk.memory_blocks.iter().all(|b| b.data.is_none()));
    assert_sound(&fs.disk);
}

#[test]
fn volume_made_now_carries_a_clock_reading() {
    let fs = QRFS::new(String::from("/"), 1, 2);
    let root = fs.disk.get_inode(1).unwrap();
    assert!(root.attributes.crtime.sec > 1_000_000_000);
    assert!(root.attributes.crtime.nsec >= 0 && root.attributes.crtime.nsec < 1_000_000_000);
    assert_eq!(root.attributes.crtime, root.attributes.mtime);
    let reply = fs.getattr(1).unwrap();
    assert!(reply.ttl.sec >= root.attributes.crtime.sec);
}

#[test]
fn tiny_volume_keeps_the_root_slot() {
    let disk = Disk::new(String::from("/"), 100, 100, now(), 0, 0);
    assert_eq!(disk.max_files, 0);
    assert_eq!(disk.super_block.len(), 1);
    assert_eq!(disk.memory_blocks.len(), 0);
    assert_eq!(disk.find_next_ino(), None);
    assert_eq!(disk.find_empty_memory_block(), None);
}

#[test]
fn allocators_take_the_first_free_and_spare_the_last() {
    let mut fs = small(4, 3);
    assert_eq!(fs.disk.find_next_ino(), Some(2));
    assert_eq!(fs.disk.find_empty_memory_block(), Some(0));
    assert_eq!(fs.disk.find_empty_reference(1), Some(0));
    fs.create_at(1, b"a", 0, now()).unwrap();
    assert_eq!(fs.disk.find_next_ino(), Some(3));
    assert_eq!(fs.disk.find_empty_memory_block(), Some(1));
    assert_eq!(fs.disk.find_empty_reference(1), Some(1));
    fs.create_at(1, b"b", 0, now()).unwrap();
    // slots 0..2 of four are taken: the last one is never handed out
    assert_eq!(fs.disk.find_next_ino(), None);
    assert_eq!(fs.disk.find_empty_memory_block(), None);
    assert_eq!(fs.create_at(1, b"c", 0, now()).err(), Some(Errno::ENOSPC));
    assert_eq!(fs.mkdir_at(1, b"d", now()).err(), Some(Errno::ENOSPC));
    fs.disk.remove_inode(2);
    assert_eq!(fs.disk.find_next_ino(), Some(2));
}

#[test]
fn disk_primitives_change_one_thing() {
    let mut fs = mount();
    fs.mkdir_at(1, b"docs", now()).unwrap();
    fs.disk.write_reference(2, 5, 9);
    assert_eq!(fs.disk.get_references(2)[5], Some(9));
    assert_eq!(fs.disk.find_empty_reference(2), Some(0));
    assert!(!fs.disk.check_references(2));
    fs.disk.write_reference(2, 0, 9);
    fs.disk.remove_reference(2, 9);
    assert_eq!(fs.disk.get_references(2)[0], None);
    assert_eq!(fs.disk.get_references(2)[5], Some(9));
    fs.disk.remove_reference(2, 9);
    assert!(fs.disk.check_references(2));
    fs.disk.write_content_bytes(7, vec![1, 2, 3]);
    assert_eq!(fs.disk.get_content_bytes(7), &Some(vec![1u8, 2, 3]));
    assert_eq!(fs.disk.get_content_bytes(8), &None);
    fs.disk.get_inode_mutable(2).unwrap().attributes.size = 77;
    assert_eq!(fs.disk.get_inode(2).unwrap().attributes.size, 77);
    assert!(fs.disk.get_inode_mutable(3).is_none());
    assert!(fs.disk.get_inode(0).is_none());
    assert!(fs.disk.get_inode(5000).is_none());
    let copy = fs.disk.get_inode(2).unwrap().duplicate();
    assert_eq!(copy.name, b"docs".to_vec());
    fs.disk.remove_inode(2);
    assert!(fs.disk.get_inode(2).is_none());
    assert!(fs.disk.write_inode(copy));
    assert_eq!(fs.disk.get_inode(2).unwrap().attributes.size, 77);
}

#[test]
fn write_inode_refuses_a_record_larger_than_a_block() {
    let mut fs = small(3, 1);
    assert_eq!(fs.disk.block_size, 552);
    // a directory record takes 178 bytes and its name
    let long = vec![b'n'; 375];
    assert_eq!(fs.mkdir_at(1, &long, now()).err(), Some(Errno::ENOSPC));
    assert!(fs.disk.get_inode(2).is_none());
    assert_eq!(fs.disk.find_empty_reference(1), Some(0));
    let fits = vec![b'n'; 374];
    assert_eq!(fs.mkdir_at(1, &fits, now()).unwrap().attributes.ino, 2);
    let mut big = Inode::new(vec![b'x'; 370], fs.disk.get_inode(2).unwrap().attributes);
    big.references[3] = Some(1);
    assert!(!fs.disk.write_inode(big));
    assert_eq!(fs.disk.get_inode(2).unwrap().name, fits);
}

#[test]
fn restore_reports_missing_block_and_oversize() {
    let mut fs = small(8, 2);
    let mut inode = Inode::new(b"f".to_vec(), fs.disk.get_inode(1).unwrap().attributes);
    inode.attributes.ino = 5;
    assert_eq!(fs.restore_inode(inode.duplicate()), Err(RestoreError::NoBlock));
    inode.attributes.ino = 2;
    inode.name = vec![b'x'; 2000];
    assert_eq!(fs.restore_inode(inode.duplicate()), Err(RestoreError::TooLarge));
    assert!(fs.disk.get_inode(2).is_none());
    inode.name = b"f".to_vec();
    assert_eq!(fs.restore_inode(inode), Ok(()));
    assert_eq!(fs.read(2).unwrap().len(), 0);
}

#[test]
fn names_are_compared_after_trimming_the_query() {
    let mut fs = mount();
    fs.create_at(1, b"x", 0, now()).unwrap();
    fs.create_at(1, b" y", 0, now()).unwrap();
    assert_eq!(fs.lookup_at(1, b"  x\t\r\n", now()).unwrap().attributes.ino, 2);
    assert_eq!(fs.lookup_at(1, b"\x0cx", now()).unwrap().attributes.ino, 2);
    // a vertical tab is no whitespace here
    assert_eq!(fs.lookup_at(1, b"\x0bx", now()).err(), Some(Errno::ENOENT));
    // the stored name is kept as given, so a name stored with a blank is never hit
    assert_eq!(fs.lookup_at(1, b" y", now()).err(), Some(Errno::ENOENT));
    assert_eq!(fs.lookup_at(1, b"y", now()).err(), Some(Errno::ENOENT));
    assert!(name_matches(&b"a b".to_vec(), b" a b "));
    assert!(!name_matches(&b"ab".to_vec(), b"a b"));
    assert!(name_matches(&Vec::new(), b" \t "));
    assert_eq!(trim_bounds(b"  ab "), (2, 4));
    assert_eq!(trim_bounds(b"   "), (3, 3));
    assert!(byte_is_space(b' ') && byte_is_space(b'\n') && !byte_is_space(0x0b));
}

#[test]
fn created_file_is_what_its_name_resolves_to() {
    let mut fs = mount();
    fs.mkdir_at(1, b"docs", now()).unwrap();
    let made = fs.create_at(2, b"x", 0, now()).unwrap();
    let found = fs.disk.find_inode_name(2, b"x").unwrap();
    assert_eq!(found.attributes, made.attributes);
    assert_eq!(found.attributes.ino, 3);
    let carrying: Vec<&Option<usize>> = fs
        .disk
        .get_references(2)
        .iter()
        .filter(|r| r.map_or(false, |c| fs.disk.get_inode(c as u64).unwrap().name == b"x"))
        .collect();
    assert_eq!(carrying, vec![&Some(3)]);
    assert!(fs.disk.find_inode_name(1, b"x").is_none());
}

#[test]
fn rename_to_the_same_name_changes_nothing() {
    let mut fs = mount();
    fs.mkdir_at(1, b"docs", now()).unwrap();
    fs.create_at(1, b"hello.txt", 0, now()).unwrap();
    let before = format!("{:?}", fs.disk);
    assert_eq!(fs.rename(1, b"hello.txt", 1, b"hello.txt"), Ok(()));
    assert_eq!(format!("{:?}", fs.disk), before);
    assert_eq!(fs.rename(1, b"absent", 1, b"absent"), Err(Errno::ENOENT));
    assert_eq!(format!("{:?}", fs.disk), before);
}

#[test]
fn rename_ignores_the_new_parent() {
    let mut fs = mount();
    fs.mkdir_at(1, b"docs", now()).unwrap();
    fs.create_at(1, b"a", 0, now()).unwrap();
    assert_eq!(fs.rename(1, b"a", 2, b"b"), Ok(()));
    assert_eq!(fs.lookup_at(1, b"b", now()).unwrap().attributes.ino, 3);
    assert_eq!(fs.lookup_at(2, b"b", now()).err(), Some(Errno::ENOENT));
}

#[test]
fn full_directory_refuses_new_children() {
    let mut fs = mount();
    for i in 0..64u8 {
        let name = [b'd', b'0' + i / 10, b'0' + i % 10];
        assert!(fs.mkdir_at(1, &name, now()).is_ok());
    }
    let before = format!("{:?}", fs.disk);
    assert_eq!(fs.mkdir_at(1, b"one more", now()).err(), Some(Errno::ENOSPC));
    assert_eq!(fs.create_at(1, b"one more", 0, now()).err(), Some(Errno::EIO));
    assert_eq!(format!("{:?}", fs.disk), before);
    assert_eq!(fs.readdir(1, 0).unwrap().len(), 66);
    assert!(fs.mkdir_at(2, b"below", now()).is_ok());
    assert_sound(&fs.disk);
}

#[test]
fn create_runs_out_of_inodes_one_before_the_end() {
    let mut fs = mount();
    let mut made = 1;
    for d in 0..17u8 {
        if made == 1023 {
            break;
        }
        let dir = fs.mkdir_at(1, &[b'd', b'a' + d], now()).unwrap().attributes.ino;
        made += 1;
        for f in 0..64u8 {
            if made == 1023 {
                break;
            }
            assert!(fs.create_at(dir, &[b'f', b'0' + f], 0, now()).is_ok());
            made += 1;
        }
    }
    assert_eq!(made, 1023);
    assert!(fs.disk.super_block[1022].is_some());
    assert!(fs.disk.super_block[1023].is_none());
    assert_eq!(fs.create_at(1, b"late", 0, now()).err(), Some(Errno::ENOSPC));
    assert_eq!(fs.mkdir_at(1, b"late", now()).err(), Some(Errno::ENOSPC));
    assert_sound(&fs.disk);
}

#[test]
fn operations_keep_the_volume_sound() {
    let mut fs = mount();
    fs.mkdir_at(1, b"docs", now()).unwrap();
    assert_sound(&fs.disk);
    fs.create_at(1, b"a", 0, now()).unwrap();
    fs.create_at(2, b"b", 0, now()).unwrap();
    fs.create_at(2, b"a", 0, now()).unwrap();
    assert_sound(&fs.disk);
    // inode 3 writes to block 2, which belongs to inode 5
    assert_eq!(fs.write(3, b"body"), Ok(4));
    assert_sound(&fs.disk);
    assert_eq!(fs.rename(2, b"b", 1, b"c"), Ok(()));
    assert_sound(&fs.disk);
    fs.mkdir_at(2, b"inner", now()).unwrap();
    assert_eq!(fs.rmdir(2, b"inner"), Ok(()));
    assert_sound(&fs.disk);
    assert_eq!(fs.rmdir(1, b"docs"), Ok(()));
    // the children of the removed directory stay in the table
    assert!(fs.disk.get_inode(4).is_some());
    assert!(fs.disk.get_inode(2).is_none());
    assert_sound(&fs.disk);
}

#[test]
fn every_error_has_its_trigger() {
    let mut fs = mount();
    assert_eq!(fs.lookup_at(1, b"nothing", now()).err(), Some(Errno::ENOENT));
    assert_eq!(fs.getattr_at(9, now()).err(), Some(Errno::ENOENT));
    assert_eq!(fs.readdir(9, 0).err(), Some(Errno::ENOENT));
    assert_eq!(fs.write(9, b"x"), Err(Errno::ENOENT));
    assert_eq!(fs.read(9).err(), Some(Errno::EIO));
    assert_eq!(fs.rmdir(1, b"nothing"), Err(Errno::EIO));
    assert_eq!(fs.open(9, 0).err(), Some(Errno::ENOSYS));
    assert_eq!(fs.fsync(1, 1, false), Err(Errno::ENOSYS));
    assert_eq!(fs.opendir(9, 0).err(), Some(Errno::EISDIR));
    assert_eq!(fs.access(9, 0), Ok(()));
    assert_eq!(fs.open(1, 5).unwrap().fh, 1);
    assert_eq!(fs.open(1, 5).unwrap().flags, 5);
    assert_eq!(fs.opendir(1, 6).unwrap().fh, 1);
}

#[test]
fn listing_from_the_cookie_on_is_empty() {
    let mut fs = mount();
    fs.mkdir_at(1, b"docs", now()).unwrap();
    fs.create_at(2, b"f", 0, now()).unwrap();
    assert_eq!(fs.readdir(1, 8).unwrap().len(), 0);
    assert_eq!(fs.readdir(2, 8).unwrap().len(), 0);
    // an inode that is not there has no listing, whatever the offset
    assert_eq!(fs.readdir(77, 8).err(), Some(Errno::ENOENT));
    assert_eq!(fs.readdir(77, 0).err(), Some(Errno::ENOENT));
    // past the start the root lines are left out
    let rest = fs.readdir(1, 1).unwrap();
    assert_eq!(rest.len(), 1);
    assert_eq!(rest[0].name, b"docs".to_vec());
    let inner = fs.readdir(2, 0).unwrap();
    assert_eq!(inner.len(), 1);
    assert_eq!((inner[0].ino, inner[0].kind, inner[0].offset), (3, FileTypeDef::RegularFile, 8));
}

#[test]
fn statfs_counts_from_the_first_free_block() {
    let mut fs = mount();
    assert_eq!(
        fs.statfs(),
        Some(StatfsReply {
            blocks: 5697,
            bfree: 5697,
            bavail: 5697,
            files: 0,
            ffree: 1024,
            bsize: 188416,
            namelen: 64,
            frsize: 5697,
        })
    );
    fs.create_at(1, b"a", 0, now()).unwrap();
    fs.create_at(1, b"b", 0, now()).unwrap();
    let stats = fs.statfs().unwrap();
    assert_eq!((stats.files, stats.bfree, stats.ffree), (2, 5695, 1022));
    let mut tiny = small(4, 2);
    tiny.create_at(1, b"a", 0, now()).unwrap();
    assert_eq!(tiny.statfs(), None);
}

#[test]
fn blocks_are_stamped_when_an_inode_is_made() {
    let mut fs = mount();
    assert_eq!(fs.getattr_at(1, now()).unwrap().attributes.blocks, 0);
    let dir = fs.mkdir_at(1, b"docs", now()).unwrap().attributes;
    assert_eq!(dir.blocks, 0);
    let file = fs.create_at(2, b"f", 0, now()).unwrap().attributes;
    assert_eq!(file.blocks, 1);
    // a directory keeps its stamp when it gains a child, the root like any other
    assert_eq!(fs.getattr_at(1, now()).unwrap().attributes.blocks, 0);
    assert_eq!(fs.getattr_at(2, now()).unwrap().attributes.blocks, 0);
    assert_eq!(fs.write(3, b"body"), Ok(4));
    assert_eq!(fs.getattr_at(3, now()).unwrap().attributes.blocks, 1);
    assert_eq!(fs.rmdir(2, b"f"), Ok(()));
    assert_eq!(fs.getattr_at(2, now()).unwrap().attributes.blocks, 0);
    assert_eq!(stamp_attributes(9, FileTypeDef::Directory, now(), 1, 2, 0), dir_like(9));
    assert_eq!(stamp_attributes(9, FileTypeDef::Symlink, now(), 1, 2, 0).blocks, 1);
}

fn dir_like(ino: u64) -> FileAttrDef {
    FileAttrDef {
        ino,
        size: 0,
        blocks: 0,
        atime: now(),
        mtime: now(),
        ctime: now(),
        crtime: now(),
        kind: FileTypeDef::Directory,
        perm: 0o755,
        nlink: 0,
        uid: 1,
        gid: 2,
        rdev: 0,
        flags: 0,
    }
}

#[test]
fn records_take_what_the_layout_counts() {
    let fs = mount();
    let root = fs.disk.get_inode(1).unwrap();
    // 8 + 1 for the name, 98 for the attributes, 8 + 64 for the references
    assert_eq!(serialized_size(root), 179);
    let mut file = root.duplicate();
    file.name = b"hello.txt".to_vec();
    file.references[0] = Some(4);
    file.references[63] = Some(usize::MAX);
    assert_eq!(serialized_size(&file), 8 + 9 + 98 + 8 + 62 + 18);
    assert_eq!(encode_inode(&file).unwrap().len() as u64, serialized_size(&file));
}
