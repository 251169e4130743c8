use lc3_vm::memory::{Memory, MemoryError, MR_KBDR, MR_KBSR};

#[test]
fn new_memory_is_zero() {
    let mut memory = Memory::new();
    assert_eq!(memory.read(0x0000), Some(0));
    assert_eq!(memory.read(0xFFFF), Some(0));
    assert_eq!(memory.keyboard, None);
}

#[test]
fn write_then_read() {
    let mut memory = Memory::new();
    assert_eq!(memory.write(0x1234, 0xABCD), Ok(()));
    assert_eq!(memory.read(0x1234), Some(0xABCD));
    assert_eq!(memory.write(0xFFFF, 7), Ok(()));
    assert_eq!(memory.read(0xFFFF), Some(7));
}

#[test]
fn read_past_the_address_space() {
    let mut memory = Memory::new();
    assert_eq!(memory.read(0x1_0000), None);
}

#[test]
fn load_places_the_image_at_its_origin() {
    let mut memory = Memory::new();
    memory.load_program(&[0x3000, 1, 2, 3]).unwrap();
    assert_eq!(memory.read(0x2FFF), Some(0));
    assert_eq!(memory.read(0x3000), Some(1));
    assert_eq!(memory.read(0x3001), Some(2));
    assert_eq!(memory.read(0x3002), Some(3));
    assert_eq!(memory.read(0x3003), Some(0));
}

#[test]
fn load_then_read_returns_the_image() {
    let image: Vec<u16> = (0..200u16).map(|i| i.wrapping_mul(257) ^ 0x5A5A).collect();
    let mut data = vec![0x4000];
    data.extend_from_slice(&image);
    let mut memory = Memory::new();
    memory.load_program(&data).unwrap();
    for (i, word) in image.iter().enumerate() {
        assert_eq!(memory.read(0x4000 + i), Some(*word));
    }
}

#[test]
fn load_origin_only() {
    let mut memory = Memory::new();
    assert_eq!(memory.load_program(&[0x3000]), Ok(()));
    assert_eq!(memory.read(0x3000), Some(0));
}

#[test]
fn load_up_to_the_last_address() {
    let mut memory = Memory::new();
    assert_eq!(memory.load_program(&[0xFFFE, 8, 9]), Ok(()));
    assert_eq!(memory.read(0xFFFE), Some(8));
    assert_eq!(memory.read(0xFFFF), Some(9));
}

#[test]
fn load_empty_image_is_refused() {
    let mut memory = Memory::new();
    assert_eq!(memory.load_program(&[]), Err(MemoryError::EmptyOrigin));
}

#[test]
fn load_past_the_end_is_refused() {
    let mut memory = Memory::new();
    assert_eq!(
        memory.load_program(&[0xFFFF, 1, 2]),
        Err(MemoryError::LoadProgram)
    );
    assert_eq!(memory.read(0xFFFF), Some(0));
    assert_eq!(memory.read(0x0000), Some(0));
}

#[test]
fn status_register_polls_the_keyboard() {
    let mut memory = Memory::new();
    memory.keyboard = Some(b'a');
    assert_eq!(memory.read(MR_KBSR as usize), Some(0x8000));
    assert_eq!(memory.read(MR_KBDR as usize), Some(0x61));
    assert_eq!(memory.keyboard, None);
    assert_eq!(memory.read(MR_KBSR as usize), Some(0));
    assert_eq!(memory.read(MR_KBDR as usize), Some(0x61));
}

#[test]
fn data_register_alone_does_not_poll() {
    let mut memory = Memory::new();
    memory.keyboard = Some(b'z');
    assert_eq!(memory.read(MR_KBDR as usize), Some(0));
    assert_eq!(memory.keyboard, Some(b'z'));
}

#[test]
fn object_bytes_are_big_endian_words() {
    let words = lc3_vm::memory::words_from_bytes(&[0x30, 0x00, 0x12, 0x34, 0xF0, 0x25]).unwrap();
    assert_eq!(words, vec![0x3000, 0x1234, 0xF025]);
    assert_eq!(lc3_vm::memory::words_from_bytes(&[]), Ok(vec![]));
}

#[test]
fn object_with_odd_byte_is_refused() {
    assert_eq!(
        lc3_vm::memory::words_from_bytes(&[0x30, 0x00, 0x12]),
        Err(MemoryError::OddByteCount)
    );
}
