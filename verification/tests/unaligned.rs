use playback_status::unaligned_u16::error::BadByteLength;
use playback_status::unaligned_u16::UnalignedU16Slice;

#[test]
fn new_rejects_odd_lengths() {
    assert!(UnalignedU16Slice::new(&[1, 2, 3]).is_err());
    assert!(UnalignedU16Slice::new(&[1]).is_err());
    assert!(UnalignedU16Slice::new(&[]).is_ok());
    assert!(UnalignedU16Slice::new(&[1, 2]).is_ok());
}

#[test]
fn elements_are_little_endian() {
    let bytes = [0x34, 0x12, 0xff, 0x00, 0x00, 0xff];
    let slice = UnalignedU16Slice::new(&bytes).unwrap();
    assert_eq!(slice.len(), 3);
    assert_eq!(slice.byte_len(), 6);
    assert!(!slice.is_empty());
    assert_eq!(slice.get(0), Some(0x1234));
    assert_eq!(slice.get(1), Some(0x00ff));
    assert_eq!(slice.get(2), Some(0xff00));
    assert_eq!(slice.get(3), None);
    assert_eq!(slice.get(usize::MAX), None);
    assert_eq!(slice.raw(), &bytes[..]);
}

#[test]
fn iterator_hands_out_from_both_ends() {
    let bytes = [1, 0, 2, 0, 3, 0, 4, 0];
    let slice = UnalignedU16Slice::new(&bytes).unwrap();
    let mut it = slice.iter();
    assert_eq!(it.remaining(), 4);
    assert_eq!(it.size_hint(), (4, Some(4)));
    assert_eq!(it.next(), Some(1));
    assert_eq!(it.next_back(), Some(4));
    assert_eq!(it.remaining(), 2);
    assert_eq!(it.next_back(), Some(3));
    assert_eq!(it.next_back(), Some(2));
    assert_eq!(it.next_back(), None);
    assert_eq!(it.next(), None);
    assert_eq!(it.remaining(), 0);
}

#[test]
fn empty_slice_is_empty() {
    let slice = UnalignedU16Slice::new(&[]).unwrap();
    assert!(slice.is_empty());
    assert_eq!(slice.len(), 0);
    assert_eq!(slice.iter().next(), None);
}

#[test]
fn try_from_bytes_is_new() {
    let even: &[u8] = &[0x34, 0x12, 0x78, 0x56];
    let slice = UnalignedU16Slice::try_from(even).unwrap();
    assert_eq!(slice, UnalignedU16Slice::new(even).unwrap());
    assert_eq!(slice.get(1), Some(0x5678));
    assert_eq!(slice.raw(), even);
    let odd: &[u8] = &[1, 2, 3];
    assert_eq!(UnalignedU16Slice::try_from(odd), Err(BadByteLength));
    let empty: &[u8] = &[];
    assert!(UnalignedU16Slice::try_from(empty).unwrap().is_empty());
}
