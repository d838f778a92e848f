use crack_core::general::MemoryAddress;
use crack_core::memory::{AccessError, MemoryAccessor, MemoryImage, WORD_SIZE};

fn image(base: usize, bytes: Vec<u8>) -> MemoryImage {
    MemoryImage::new(MemoryAddress::from_raw(base), bytes)
}

#[test]
fn read_memory() {
    let data = vec![1, 2, 3, 4, 5, 6, 7];
    let mut memory = image(0x1000, data.clone());
    // a whole word reaches past the seven bytes held
    let whole: Result<[u8; 8], AccessError> = memory.read_memory(MemoryAddress::from_raw(0x1000));
    assert_eq!(
        whole,
        Err(AccessError { address: MemoryAddress::from_raw(0x1000), code: 0 })
    );
    memory = image(0x1000, vec![1, 2, 3, 4, 5, 6, 7, 8, 0, 0, 0, 0, 0, 0, 0, 0]);
    memory.write_memory(MemoryAddress::from_raw(0x1001), [123u8]).unwrap();
    let bytes: [u8; 8] = memory.read_memory(MemoryAddress::from_raw(0x1000)).unwrap();
    assert_eq!(bytes, [1, 123, 3, 4, 5, 6, 7, 8]);
    println!("{:?}", data);
    println!("{:?}", bytes);
}

#[test]
fn partial_word_write_keeps_rest_of_word() {
    let mut memory = image(0x2000, vec![0xAA; 8]);
    memory.write_memory(MemoryAddress::from_raw(0x2000), [0x01u8, 0x02, 0x03]).unwrap();
    let word: [u8; 8] = memory.read_memory(MemoryAddress::from_raw(0x2000)).unwrap();
    assert_eq!(word, [0x01, 0x02, 0x03, 0xAA, 0xAA, 0xAA, 0xAA, 0xAA]);
    assert_eq!(memory.contents(), &vec![0x01, 0x02, 0x03, 0xAA, 0xAA, 0xAA, 0xAA, 0xAA]);
}

#[test]
fn write_then_read_round_trip() {
    let mut memory = image(0x3000, vec![0x11; 24]);
    let data: [u8; 11] = [9, 8, 7, 6, 5, 4, 3, 2, 1, 0, 0xFF];
    memory.write_memory(MemoryAddress::from_raw(0x3000), data).unwrap();
    let back: [u8; 11] = memory.read_memory(MemoryAddress::from_raw(0x3000)).unwrap();
    assert_eq!(back, data);
    let mut expected = vec![0x11u8; 24];
    expected[..11].copy_from_slice(&data);
    assert_eq!(memory.contents(), &expected);
}

#[test]
fn whole_words_write_touches_nothing_else() {
    let mut memory = image(0x3000, vec![0x22; 24]);
    let data = [0x5Au8; 16];
    memory.write_memory(MemoryAddress::from_raw(0x3004), data).unwrap();
    let mut expected = vec![0x22u8; 24];
    for b in expected[4..20].iter_mut() {
        *b = 0x5A;
    }
    assert_eq!(memory.contents(), &expected);
}

#[test]
fn unaligned_write_and_read() {
    let mut memory = image(0x4000, (0u8..32).collect());
    memory.write_memory(MemoryAddress::from_raw(0x4005), [0xE0u8, 0xE1, 0xE2, 0xE3, 0xE4, 0xE5, 0xE6, 0xE7, 0xE8, 0xE9]).unwrap();
    let back: [u8; 10] = memory.read_memory(MemoryAddress::from_raw(0x4005)).unwrap();
    assert_eq!(back, [0xE0, 0xE1, 0xE2, 0xE3, 0xE4, 0xE5, 0xE6, 0xE7, 0xE8, 0xE9]);
    assert_eq!(memory.contents()[4], 4);
    assert_eq!(memory.contents()[15], 15);
    assert_eq!(memory.contents()[22], 22);
}

#[test]
fn empty_access_succeeds() {
    let mut memory = image(0x5000, vec![]);
    let none: [u8; 0] = memory.read_memory(MemoryAddress::from_raw(0x5000)).unwrap();
    assert_eq!(none, []);
    memory.write_memory(MemoryAddress::from_raw(0x5000), []).unwrap();
    assert!(memory.contents().is_empty());
}

#[test]
fn read_outside_image_fails() {
    let memory = image(0x6000, vec![0; 16]);
    let below: Result<[u8; 1], AccessError> = memory.read_memory(MemoryAddress::from_raw(0x5FFF));
    assert_eq!(
        below,
        Err(AccessError { address: MemoryAddress::from_raw(0x5FFF), code: 0 })
    );
    let tail: Result<[u8; 1], AccessError> = memory.read_memory(MemoryAddress::from_raw(0x6009));
    assert!(tail.is_err());
    let inside: [u8; 1] = memory.read_memory(MemoryAddress::from_raw(0x6008)).unwrap();
    assert_eq!(inside, [0]);
}

#[test]
fn failed_write_leaves_bytes_outside_span() {
    let mut memory = image(0x7000, vec![0x33; 12]);
    let result = memory.write_memory(MemoryAddress::from_raw(0x7000), [0x44u8; 10]);
    assert_eq!(
        result,
        Err(AccessError { address: MemoryAddress::from_raw(0x7008), code: 0 })
    );
    let mut expected = vec![0x44u8; 8];
    expected.extend_from_slice(&[0x33; 4]);
    assert_eq!(memory.contents(), &expected);
}

#[test]
fn access_at_end_of_address_space_fails() {
    let memory = image(usize::MAX - 3, vec![1, 2, 3, 4]);
    let r: Result<[u8; 1], AccessError> = memory.read_memory(MemoryAddress::from_raw(usize::MAX - 3));
    assert!(r.is_err());
}

#[test]
fn word_primitive_reads_and_writes_one_word() {
    let mut memory = image(0x8000, (0u8..16).collect());
    let w = memory.read_word(MemoryAddress::from_raw(0x8002)).unwrap();
    assert_eq!(w, [2, 3, 4, 5, 6, 7, 8, 9]);
    memory.write_word(MemoryAddress::from_raw(0x8008), [0xFF; WORD_SIZE]).unwrap();
    assert_eq!(&memory.contents()[8..], &[0xFF; 8]);
    assert_eq!(&memory.contents()[..8], &[0, 1, 2, 3, 4, 5, 6, 7]);
}
