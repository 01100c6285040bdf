use nfs4_client::attr::{
    FileAttribute, FileAttributeId, FileAttributes, FileType, ThresholdAttribute,
    ThresholdAttributeId,
};
use nfs4_client::basic::{FileHandle, Mode, Time};
use nfs4_client::enum_map::{EnumId, EnumMap, EnumSet, ToId};
use nfs4_client::xdr::{from_bytes, to_bytes, XdrError};

fn set_of(ids: &[FileAttributeId]) -> EnumSet<FileAttributeId> {
    EnumSet::from_slice(ids)
}

#[test]
fn a_set_is_encoded_as_a_little_bitmap() {
    assert_eq!(to_bytes(&set_of(&[])).unwrap(), vec![0, 0, 0, 0]);
    assert_eq!(to_bytes(&set_of(&[FileAttributeId::Size])).unwrap(), vec![0, 0, 0, 1, 0, 0, 0, 0x10]);
    assert_eq!(
        to_bytes(&set_of(&[
            FileAttributeId::Mode,
            FileAttributeId::SupportedAttrs,
            FileAttributeId::Size
        ]))
        .unwrap(),
        vec![0, 0, 0, 2, 0, 0, 0, 0x11, 0, 0, 0, 0x02]
    );
    assert_eq!(
        to_bytes(&set_of(&[FileAttributeId::MaxWrite])).unwrap(),
        vec![0, 0, 0, 1, 0x80, 0, 0, 0]
    );
}

#[test]
fn a_bitmap_has_no_more_words_than_its_greatest_identifier_needs() {
    let high = to_bytes(&set_of(&[FileAttributeId::FsCharsetCap])).unwrap();
    assert_eq!(high, vec![0, 0, 0, 3, 0, 0, 0, 0, 0, 0, 0, 0, 0, 0, 0x10, 0]);
    let mut set = set_of(&[FileAttributeId::FsCharsetCap, FileAttributeId::Type]);
    assert!(set.remove(FileAttributeId::FsCharsetCap));
    assert_eq!(to_bytes(&set).unwrap(), vec![0, 0, 0, 1, 0, 0, 0, 2]);
}

#[test]
fn the_bits_of_a_bitmap_are_the_identifiers_of_the_set() {
    let all: Vec<FileAttributeId> = (0..=76).filter_map(FileAttributeId::try_from_u32).collect();
    assert_eq!(all.len(), 76);
    for chosen in [vec![0usize, 1, 2], vec![5, 31, 32, 63, 64], vec![75], (0..76).collect()] {
        let ids: Vec<FileAttributeId> = chosen.iter().map(|&i| all[i]).collect();
        let bytes = to_bytes(&set_of(&ids)).unwrap();
        let count = u32::from_be_bytes([bytes[0], bytes[1], bytes[2], bytes[3]]) as usize;
        assert_eq!(bytes.len(), 4 + 4 * count);
        let max = ids.iter().map(|k| k.to_u32()).max().unwrap();
        assert_eq!(count as u32, max / 32 + 1);
        for position in 0..(32 * count as u32) {
            let w = 4 + 4 * (position / 32) as usize;
            let word = u32::from_be_bytes([bytes[w], bytes[w + 1], bytes[w + 2], bytes[w + 3]]);
            let bit = word >> (position % 32) & 1 == 1;
            assert_eq!(bit, ids.iter().any(|k| k.to_u32() == position));
        }
        assert_eq!(from_bytes::<EnumSet<FileAttributeId>>(&bytes).unwrap().to_vec(), {
            let mut sorted = ids.clone();
            sorted.sort();
            sorted
        });
    }
}

#[test]
fn a_set_is_kept_in_ascending_order_without_repetition() {
    let mut set = EnumSet::new();
    assert!(set.insert(FileAttributeId::Mode));
    assert!(set.insert(FileAttributeId::Type));
    assert!(!set.insert(FileAttributeId::Mode));
    assert!(set.insert(FileAttributeId::Size));
    assert_eq!(
        set.to_vec(),
        vec![FileAttributeId::Type, FileAttributeId::Size, FileAttributeId::Mode]
    );
    assert_eq!(set.len(), 3);
    assert!(set.contains(FileAttributeId::Size));
    assert!(!set.contains(FileAttributeId::Owner));
    assert!(!set.remove(FileAttributeId::Owner));
    assert!(set.remove(FileAttributeId::Type));
    assert_eq!(set.clone().to_vec(), vec![FileAttributeId::Size, FileAttributeId::Mode]);
}

#[test]
fn a_bit_that_names_no_identifier_is_reported() {
    assert_eq!(
        from_bytes::<EnumSet<FileAttributeId>>(&[0, 0, 0, 1, 0x02, 0, 0, 0]),
        Err(XdrError::UnknownAttributeId(25))
    );
    assert_eq!(
        from_bytes::<EnumSet<FileAttributeId>>(&[0, 0, 0, 3, 0, 0, 0, 1, 0, 0, 0, 0, 0, 0, 0x20, 0]),
        Err(XdrError::UnknownAttributeId(77))
    );
    assert_eq!(
        from_bytes::<EnumSet<FileAttributeId>>(&[0, 0, 0, 3, 0, 0, 0, 1, 0, 0, 0, 0, 0, 0, 0x20]),
        Err(XdrError::Truncated)
    );
    assert_eq!(
        from_bytes::<EnumSet<ThresholdAttributeId>>(&[0, 0, 0, 1, 0, 0, 0, 0x10]),
        Err(XdrError::UnknownAttributeId(4))
    );
}

#[test]
fn words_of_zero_at_the_end_of_a_bitmap_are_let_pass() {
    let set = from_bytes::<EnumSet<FileAttributeId>>(&[0, 0, 0, 2, 0, 0, 0, 0x10, 0, 0, 0, 0]);
    assert_eq!(set.unwrap().to_vec(), vec![FileAttributeId::Size]);
}

#[test]
fn identifiers_have_stable_numbers() {
    assert_eq!(FileAttributeId::SupportedAttrs.to_u32(), 0);
    assert_eq!(FileAttributeId::FsLocations.to_u32(), 24);
    assert_eq!(FileAttributeId::Homogeneous.to_u32(), 26);
    assert_eq!(FileAttributeId::FsCharsetCap.to_u32(), 76);
    assert_eq!(FileAttributeId::try_from_u32(25), None);
    assert_eq!(FileAttributeId::try_from_u32(77), None);
    assert_eq!(FileAttributeId::try_from_u32(53), Some(FileAttributeId::TimeModify));
}

#[test]
fn an_attribute_value_knows_its_identifier() {
    assert_eq!(FileAttribute::Size(1).to_id(), FileAttributeId::Size);
    assert_eq!(FileAttribute::Owner("root".to_string()).to_id(), FileAttributeId::Owner);
    assert_eq!(FileAttribute::FsCharsetCap(0).to_id(), FileAttributeId::FsCharsetCap);
    assert_eq!(
        FileAttribute::SupportedAttrs(EnumSet::new()).to_id(),
        FileAttributeId::SupportedAttrs
    );
    assert_eq!(ThresholdAttribute::WriteIoSize(1).to_id(), ThresholdAttributeId::WriteIoSize);
}

#[test]
fn an_attribute_value_alone_is_a_tagged_union() {
    let size = FileAttribute::Size(100);
    let bytes = to_bytes(&size).unwrap();
    assert_eq!(bytes, vec![0, 0, 0, 4, 0, 0, 0, 0, 0, 0, 0, 100]);
    assert_eq!(from_bytes::<FileAttribute>(&bytes), Ok(size));
    let owner = FileAttribute::Owner("root".to_string());
    let bytes = to_bytes(&owner).unwrap();
    assert_eq!(bytes, vec![0, 0, 0, 36, 0, 0, 0, 4, b'r', b'o', b'o', b't']);
    assert_eq!(from_bytes::<FileAttribute>(&bytes), Ok(owner));
    assert_eq!(
        from_bytes::<FileAttribute>(&[0, 0, 0, 25]),
        Err(XdrError::BadDiscriminant("FileAttribute", 25))
    );
}

#[test]
fn a_map_is_encoded_as_a_bitmap_and_one_opaque_body() {
    let map: FileAttributes =
        EnumMap::from_vec(vec![FileAttribute::Mode(Mode(0o644)), FileAttribute::Size(100)]);
    let bytes = to_bytes(&map).unwrap();
    assert_eq!(
        bytes,
        vec![
            0, 0, 0, 2, 0, 0, 0, 0x10, 0, 0, 0, 0x02, // the bitmap: bits 4 and 33
            0, 0, 0, 12, // the length of the body
            0, 0, 0, 0, 0, 0, 0, 100, // the size
            0, 0, 0x01, 0xa4, // the mode
        ]
    );
    assert_eq!(from_bytes::<FileAttributes>(&bytes), Ok(map));
    let empty: FileAttributes = EnumMap::new();
    assert_eq!(to_bytes(&empty).unwrap(), vec![0, 0, 0, 0, 0, 0, 0, 0]);
    assert_eq!(from_bytes::<FileAttributes>(&[0, 0, 0, 0, 0, 0, 0, 0]), Ok(empty));
}

#[test]
fn the_values_of_a_map_are_in_ascending_order_of_identifier() {
    let mut map: FileAttributes = EnumMap::new();
    assert_eq!(map.insert(FileAttribute::TimeModify(Time { seconds: 1, nseconds: 2 })), None);
    assert_eq!(map.insert(FileAttribute::Owner("a".to_string())), None);
    assert_eq!(map.insert(FileAttribute::Type(FileType::Directory)), None);
    assert_eq!(map.insert(FileAttribute::Size(3)), None);
    let ids: Vec<u32> = map.values().iter().map(|v| v.to_id().to_u32()).collect();
    assert_eq!(ids, vec![1, 4, 36, 53]);
    assert_eq!(map.len(), 4);
    let decoded = from_bytes::<FileAttributes>(&to_bytes(&map).unwrap()).unwrap();
    assert_eq!(decoded, map);
    let ids: Vec<u32> = decoded.values().iter().map(|v| v.to_id().to_u32()).collect();
    assert_eq!(ids, vec![1, 4, 36, 53]);
}

#[test]
fn of_two_values_of_one_identifier_the_later_one_stays() {
    let mut map: FileAttributes = EnumMap::new();
    assert_eq!(map.insert(FileAttribute::Size(1)), None);
    assert_eq!(map.insert(FileAttribute::Size(2)), Some(FileAttribute::Size(1)));
    assert_eq!(map.len(), 1);
    assert_eq!(map.get(FileAttributeId::Size), Some(&FileAttribute::Size(2)));
    let built: FileAttributes = EnumMap::from_vec(vec![
        FileAttribute::Size(1),
        FileAttribute::NumLinks(9),
        FileAttribute::Size(2),
    ]);
    assert_eq!(built.values(), &vec![FileAttribute::Size(2), FileAttribute::NumLinks(9)]);
}

#[test]
fn values_are_found_and_taken_out_by_identifier() {
    let mut map: FileAttributes = EnumMap::from_vec(vec![
        FileAttribute::Size(100),
        FileAttribute::Owner("root".to_string()),
        FileAttribute::FileHandle(FileHandle(vec![1, 2])),
    ]);
    assert_eq!(map.get(FileAttributeId::Size), Some(&FileAttribute::Size(100)));
    assert_eq!(map.get(FileAttributeId::Mode), None);
    assert_eq!(map.get_as::<u64>(FileAttributeId::Size), Some(&100));
    assert_eq!(map.get_as::<u32>(FileAttributeId::Size), None);
    assert_eq!(map.get_as::<String>(FileAttributeId::Owner), Some(&"root".to_string()));
    assert_eq!(map.get_as::<u64>(FileAttributeId::Mode), None);
    assert_eq!(map.remove_as::<FileHandle>(FileAttributeId::FileHandle), Some(FileHandle(vec![1, 2])));
    assert_eq!(map.remove_as::<FileHandle>(FileAttributeId::FileHandle), None);
    assert_eq!(map.remove(FileAttributeId::Size), Some(FileAttribute::Size(100)));
    assert_eq!(map.remove(FileAttributeId::Size), None);
    assert_eq!(map.len(), 1);
}

#[test]
fn a_map_with_a_bit_that_names_no_identifier_is_reported() {
    assert_eq!(
        from_bytes::<FileAttributes>(&[0, 0, 0, 1, 0x02, 0, 0, 0, 0, 0, 0, 4, 0, 0, 0, 0]),
        Err(XdrError::UnknownAttributeId(25))
    );
}

#[test]
fn a_body_that_is_longer_or_shorter_than_its_values_is_reported() {
    assert_eq!(
        from_bytes::<FileAttributes>(&[
            0, 0, 0, 1, 0, 0, 0, 0x10, 0, 0, 0, 12, 0, 0, 0, 0, 0, 0, 0, 100, 0, 0, 0, 0
        ]),
        Err(XdrError::TrailingBytes)
    );
    assert_eq!(
        from_bytes::<FileAttributes>(&[0, 0, 0, 1, 0, 0, 0, 0x10, 0, 0, 0, 4, 0, 0, 0, 0]),
        Err(XdrError::Truncated)
    );
}

#[test]
fn a_set_inside_a_map_is_a_bitmap_inside_the_body() {
    let supported = EnumSet::from_slice(&[FileAttributeId::Size, FileAttributeId::Mode]);
    let map: FileAttributes = EnumMap::from_vec(vec![
        FileAttribute::MaxRead(4096),
        FileAttribute::SupportedAttrs(supported.clone()),
    ]);
    let bytes = to_bytes(&map).unwrap();
    assert_eq!(
        bytes,
        vec![
            0, 0, 0, 1, 0x40, 0, 0, 0x01, // bits 0 and 30
            0, 0, 0, 20, // the length of the body
            0, 0, 0, 2, 0, 0, 0, 0x10, 0, 0, 0, 0x02, // the supported attributes
            0, 0, 0, 0, 0, 0, 0x10, 0, // what is read at once
        ]
    );
    let mut decoded = from_bytes::<FileAttributes>(&bytes).unwrap();
    assert_eq!(
        decoded.remove_as::<EnumSet<FileAttributeId>>(FileAttributeId::SupportedAttrs),
        Some(supported)
    );
}
