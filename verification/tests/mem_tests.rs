use chip8::EmuError;
use chip8::mem::Mem;

#[test]
fn new_memory_is_zero_filled() {
    let m = Mem::new();
    assert_eq!(m.read_byte(0), Ok(0));
    assert_eq!(m.read_byte(0x200), Ok(0));
    assert_eq!(m.read_byte(4095), Ok(0));
}

#[test]
fn load_then_read_round_trips() {
    let mut m = Mem::new();
    let buf = vec![1u8, 2, 3, 4, 5];
    assert_eq!(m.load(&buf, 0x200), Ok(()));
    assert_eq!(m.read(0x200, 5), Ok(buf));
}

#[test]
fn load_at_end_of_memory_round_trips() {
    let mut m = Mem::new();
    let buf = vec![9u8, 8];
    assert_eq!(m.load(&buf, 4094), Ok(()));
    assert_eq!(m.read(4094, 2), Ok(buf));
}

#[test]
fn load_past_end_reports_capacity_and_writes_nothing() {
    let mut m = Mem::new();
    assert_eq!(m.load(&vec![7u8; 4], 0x200), Ok(()));
    let r = m.load(&vec![1u8, 2, 3], 4094);
    assert_eq!(r, Err(EmuError::Capacity));
    // nothing was written, not even the bytes that would have fit
    assert_eq!(m.read_byte(4094), Ok(0));
    assert_eq!(m.read_byte(4095), Ok(0));
    // earlier contents are untouched
    assert_eq!(m.read_byte(0x200), Ok(7));
}

#[test]
fn write_byte_then_read_byte() {
    let mut m = Mem::new();
    assert_eq!(m.write_byte(0xAB, 123), Ok(()));
    assert_eq!(m.read_byte(123), Ok(0xAB));
}

#[test]
fn byte_access_past_end_reports_capacity() {
    let mut m = Mem::new();
    assert_eq!(m.write_byte(1, 4096), Err(EmuError::Capacity));
    assert_eq!(m.read_byte(4096), Err(EmuError::Capacity));
    assert_eq!(m.read_byte(0xFFFF), Err(EmuError::Capacity));
}

#[test]
fn read_word_is_big_endian_of_the_two_bytes() {
    let mut m = Mem::new();
    m.write_byte(0xAB, 10).unwrap();
    m.write_byte(0xCD, 11).unwrap();
    let hi = m.read_byte(10).unwrap();
    let lo = m.read_byte(11).unwrap();
    assert_eq!(m.read_word(10), Ok(((hi as u16) << 8) | (lo as u16)));
    assert_eq!(m.read_word(10), Ok(0xABCD));
}

#[test]
fn read_word_at_last_byte_reports_capacity() {
    let m = Mem::new();
    assert_eq!(m.read_word(4095), Err(EmuError::Capacity));
    assert_eq!(m.read_word(4094), Ok(0));
}

#[test]
fn read_slice_past_end_reports_capacity() {
    let m = Mem::new();
    assert_eq!(m.read(4090, 7), Err(EmuError::Capacity));
    assert_eq!(m.read(4090, 6), Ok(vec![0u8; 6]));
}
