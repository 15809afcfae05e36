use ethervoid::save::{decode_save, pack_save, read_save_file, save_file_bytes, unpack_save, SaveData};

#[test]
fn save_bytes_round_trip() {
    let encoded: Vec<u8> = (0..200u32).map(|i| (i % 7) as u8).collect();
    let packed = pack_save(&encoded).unwrap();
    assert_ne!(packed, encoded);
    assert_eq!(&packed[..4], &[0x28, 0xB5, 0x2F, 0xFD]);
    assert_eq!(unpack_save(&packed), Some(encoded));
}

#[test]
fn empty_save_round_trip() {
    let packed = pack_save(&vec![]).unwrap();
    assert!(!packed.is_empty());
    assert_eq!(unpack_save(&packed), Some(vec![]));
}

#[test]
fn garbage_save_file_is_refused() {
    assert_eq!(unpack_save(&vec![1, 2, 3, 4, 5]), None);
}

#[test]
fn save_file_round_trip() {
    let mut data = SaveData::new(42);
    data.see_map("default:test".to_string());
    data.see_map("default:cave".to_string());
    data.see_map("default:test".to_string());
    assert_eq!(data.seen_maps(), &vec!["default:test".to_string(), "default:cave".to_string()]);
    let file = save_file_bytes(&data).unwrap();
    assert_eq!(&file[..4], &[0x28, 0xB5, 0x2F, 0xFD]);
    let back = read_save_file(&file).unwrap();
    assert_eq!(back.seed(), 42);
    assert_eq!(back.seen_maps(), data.seen_maps());
}

#[test]
fn save_file_of_garbage_is_refused() {
    assert!(read_save_file(&vec![9, 9, 9]).is_none());
    // A valid zstd frame that holds no save.
    let frame = pack_save(&vec![0xFF]).unwrap();
    assert!(read_save_file(&frame).is_none());
}

#[test]
fn empty_and_unframed_files_are_refused() {
    assert_eq!(unpack_save(&vec![]), None);
    assert_eq!(unpack_save(&vec![0x28, 0xB5]), None);
    assert!(read_save_file(&vec![]).is_none());
}

#[test]
fn huge_declared_lengths_are_refused() {
    // A list that declares u64::MAX names.
    let mut bytes = vec![0xFD];
    bytes.extend([0xFF; 8]);
    assert!(decode_save(&bytes).is_none());
    // A name that declares u64::MAX bytes.
    let mut bytes = vec![1, 0xFD];
    bytes.extend([0xFF; 8]);
    assert!(decode_save(&bytes).is_none());
    let frame = pack_save(&bytes).unwrap();
    assert!(read_save_file(&frame).is_none());
}
