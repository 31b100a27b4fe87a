use unibit::memory::Memory;

#[test]
fn test_store_counts_bit_erasures() {
    let mut mem = Memory::new(1024);
    mem.store_u8(0, 0xFF).unwrap();
    assert_eq!(mem.bit_erasures, 8);
    mem.store_u8(0, 0xFF).unwrap();
    assert_eq!(mem.bit_erasures, 8);
    mem.store_u8(0, 0x0F).unwrap();
    assert_eq!(mem.bit_erasures, 12);
    mem.write_bytes(64, &[0xFF; 8]).unwrap();
    assert_eq!(mem.bit_erasures, 12);
}

#[test]
fn test_load_store_u64() {
    let mut mem = Memory::new(1024);
    mem.store_u64(0, 0xDEAD_BEEF_CAFE_BABE).unwrap();
    assert_eq!(mem.load_u64(0).unwrap(), 0xDEAD_BEEF_CAFE_BABE);
}

#[test]
fn test_little_endian() {
    let mut mem = Memory::new(1024);
    mem.store_u32(0, 0x01020304).unwrap();
    assert_eq!(mem.load_u8(0).unwrap(), 0x04);
    assert_eq!(mem.load_u8(3).unwrap(), 0x01);
}

#[test]
fn test_256bit_load_store() {
    let mut mem = Memory::new(1024);
    let lanes = [0x1111, 0x2222, 0x3333, 0x4444];
    mem.store_256(0, &lanes).unwrap();
    let loaded = mem.load_256(0).unwrap();
    assert_eq!(loaded, lanes);
}

#[test]
fn test_out_of_bounds() {
    let mut mem = Memory::new(64);
    assert!(mem.store_u64(60, 0).is_err());
}

#[test]
fn out_of_range_messages_name_the_access() {
    let mut mem = Memory::new(64);
    assert_eq!(
        mem.load_u32(62).unwrap_err(),
        "memory access out of bounds: addr=0x3e, width=4, mem_size=0x40"
    );
    assert_eq!(mem.reads, 0);
    assert!(mem.store_u8(u64::MAX, 1).is_err());
    assert_eq!(mem.writes, 0);
}

#[test]
fn loads_sign_extend_and_count_reads() {
    let mut mem = Memory::new(64);
    mem.write_bytes(0, &[0x80, 0xFF, 0x7F, 0x80]).unwrap();
    assert_eq!(mem.load_i8(0).unwrap(), -128);
    assert_eq!(mem.load_u16(0).unwrap(), 0xFF80);
    assert_eq!(mem.load_i16(0).unwrap(), -128);
    assert_eq!(mem.load_i32(0).unwrap(), 0x807FFF80u32 as i32);
    assert_eq!(mem.reads, 4);
    assert_eq!(mem.writes, 0);
}

#[test]
fn byte_strings_and_c_strings_read_back() {
    let mut mem = Memory::new(64);
    mem.write_bytes(10, b"hi\0there").unwrap();
    assert_eq!(mem.read_bytes(10, 2).unwrap(), b"hi");
    assert_eq!(mem.read_cstr(10).unwrap(), b"hi");
    assert!(mem.read_bytes(60, 8).is_err());
    assert!(mem.write_bytes(60, &[0; 8]).is_err());
}
