use qrfs::codec::{decode_inode, encode_inode, kind_from_tag, kind_to_tag, serialized_size, DecodeError};
use qrfs::inode::{FileAttrDef, FileTypeDef, Inode, TimespecDef};

fn sample_attributes(ino: u64, kind: FileTypeDef) -> FileAttrDef {
    let t = TimespecDef { sec: 1_600_000_000, nsec: 42 };
    FileAttrDef {
        ino,
        size: 13,
        blocks: 1,
        atime: t,
        mtime: TimespecDef { sec: 1, nsec: 2 },
        ctime: TimespecDef { sec: -3, nsec: 4 },
        crtime: TimespecDef { sec: 5, nsec: 6 },
        kind,
        perm: 0o755,
        nlink: 0,
        uid: 1000,
        gid: 1001,
        rdev: 0,
        flags: 7,
    }
}

#[test]
fn encode_then_decode_gives_the_inode() {
    let mut inode = Inode::new(b"hello.txt".to_vec(), sample_attributes(2, FileTypeDef::RegularFile));
    inode.references[0] = Some(5);
    let bytes = encode_inode(&inode).unwrap();
    let back = decode_inode(&bytes).unwrap();
    assert_eq!(back.name, inode.name);
    assert_eq!(back.attributes, inode.attributes);
    assert_eq!(back.references, inode.references);
}

#[test]
fn encoded_layout_is_length_tagged_little_endian() {
    let mut inode = Inode::new(b"ab".to_vec(), sample_attributes(2, FileTypeDef::RegularFile));
    inode.references[0] = Some(5);
    let bytes = encode_inode(&inode).unwrap();
    // name: length as u64, then the bytes
    assert_eq!(&bytes[0..10], &[2, 0, 0, 0, 0, 0, 0, 0, b'a', b'b']);
    // ino, size, blocks
    assert_eq!(&bytes[10..18], &2u64.to_le_bytes());
    assert_eq!(&bytes[18..26], &13u64.to_le_bytes());
    assert_eq!(&bytes[26..34], &1u64.to_le_bytes());
    // four timestamps of 12 bytes each, then the kind number
    assert_eq!(&bytes[34..42], &1_600_000_000i64.to_le_bytes());
    assert_eq!(&bytes[42..46], &42i32.to_le_bytes());
    assert_eq!(&bytes[82..86], &4u32.to_le_bytes());
    // perm, nlink, uid, gid, rdev, flags
    assert_eq!(&bytes[86..88], &0o755u16.to_le_bytes());
    assert_eq!(&bytes[92..96], &1000u32.to_le_bytes());
    assert_eq!(&bytes[104..108], &7u32.to_le_bytes());
    // references: count, then a tag byte and the value where present
    assert_eq!(&bytes[108..116], &64u64.to_le_bytes());
    assert_eq!(bytes[116], 1);
    assert_eq!(&bytes[117..125], &5u64.to_le_bytes());
    assert_eq!(bytes[125], 0);
    assert_eq!(bytes.len(), 108 + 8 + 9 + 63);
    assert_eq!(serialized_size(&inode), bytes.len() as u64);
}

#[test]
fn decode_rejects_truncated_payload() {
    let inode = Inode::new(b"docs".to_vec(), sample_attributes(3, FileTypeDef::Directory));
    let mut bytes = encode_inode(&inode).unwrap();
    bytes.truncate(bytes.len() - 1);
    assert_eq!(decode_inode(&bytes).err(), Some(DecodeError::Malformed));
    assert_eq!(decode_inode(&Vec::new()).err(), Some(DecodeError::Malformed));
}

#[test]
fn decode_rejects_unknown_kind() {
    let inode = Inode::new(b"docs".to_vec(), sample_attributes(3, FileTypeDef::Directory));
    let mut bytes = encode_inode(&inode).unwrap();
    // the kind number sits after the name (8 + 4) and 72 bytes of attributes
    bytes[12 + 72] = 7;
    assert_eq!(decode_inode(&bytes).err(), Some(DecodeError::UnknownKind));
}

#[test]
fn kind_numbers_follow_declaration_order() {
    let kinds = [
        FileTypeDef::NamedPipe,
        FileTypeDef::CharDevice,
        FileTypeDef::BlockDevice,
        FileTypeDef::Directory,
        FileTypeDef::RegularFile,
        FileTypeDef::Symlink,
        FileTypeDef::Socket,
    ];
    for (i, kind) in kinds.iter().enumerate() {
        assert_eq!(kind_to_tag(*kind), i as u32);
        assert_eq!(kind_from_tag(i as u32), Some(*kind));
    }
    assert_eq!(kind_from_tag(7), None);
}
