use bytes::Bytes;
use ckb_vm_core::error::Error;
use ckb_vm_core::flat::{get_page_indices, FlatMemory};
use ckb_vm_core::{FLAG_DIRTY, RISCV_MAX_MEMORY, RISCV_PAGESIZE, RISCV_PAGE_SHIFTS};

fn small() -> FlatMemory<u64> {
    FlatMemory::<u64>::new_with_memory(RISCV_PAGESIZE * 4)
}

#[test]
fn constants_agree_with_definitions() {
    assert_eq!(RISCV_PAGESIZE, ckb_vm_definitions::RISCV_PAGESIZE);
    assert_eq!(RISCV_PAGE_SHIFTS, ckb_vm_definitions::RISCV_PAGE_SHIFTS);
    assert_eq!(RISCV_MAX_MEMORY, ckb_vm_definitions::RISCV_MAX_MEMORY);
    assert_eq!(FLAG_DIRTY, ckb_vm_definitions::memory::FLAG_DIRTY);
}

#[test]
fn new_memory_is_zeroed() {
    let mut m = small();
    assert_eq!(m.memory_size(), RISCV_PAGESIZE * 4);
    assert!(m.raw_bytes().iter().all(|b| *b == 0));
    for p in 0..4 {
        assert_eq!(m.fetch_flag(p), Ok(0));
    }
    assert_eq!(*m.lr(), u64::MAX);
}

#[test]
fn default_memory_has_maximum_size() {
    let m = FlatMemory::<u64>::default();
    assert_eq!(m.memory_size(), RISCV_MAX_MEMORY);
}

#[test]
fn round_trip_each_width() {
    let mut m = small();
    m.store8(&10, &0x1ab).unwrap();
    assert_eq!(m.load8(&10), Ok(0xab));
    m.store16(&20, &0x1_beef).unwrap();
    assert_eq!(m.load16(&20), Ok(0xbeef));
    m.store32(&40, &0xdead_beef).unwrap();
    assert_eq!(m.load32(&40), Ok(0xdead_beef));
    m.store64(&80, &0x0102_0304_0506_0708).unwrap();
    assert_eq!(m.load64(&80), Ok(0x0102_0304_0506_0708));
    let end = (RISCV_PAGESIZE * 4 - 8) as u64;
    m.store64(&end, &u64::MAX).unwrap();
    assert_eq!(m.load64(&end), Ok(u64::MAX));
}

#[test]
fn stores_are_little_endian() {
    let mut m = small();
    m.store16(&0, &0x0102).unwrap();
    assert_eq!(&m.raw_bytes()[0..2], &[0x02, 0x01]);
    m.store32(&8, &0x0102_0304).unwrap();
    assert_eq!(&m.raw_bytes()[8..12], &[0x04, 0x03, 0x02, 0x01]);
    m.store64(&16, &0x0102_0304_0506_0708).unwrap();
    assert_eq!(
        &m.raw_bytes()[16..24],
        &[0x08, 0x07, 0x06, 0x05, 0x04, 0x03, 0x02, 0x01]
    );
    m.store_bytes(32, &[0x11, 0x22, 0x33, 0x44]).unwrap();
    assert_eq!(m.load32(&32), Ok(0x4433_2211));
    assert_eq!(m.load16(&33), Ok(0x3322));
}

#[test]
fn narrow_register_round_trip() {
    let mut m = FlatMemory::<u32>::new_with_memory(RISCV_PAGESIZE);
    assert_eq!(*m.lr(), u32::MAX);
    m.store64(&0, &0x8000_0001).unwrap();
    assert_eq!(m.load64(&0), Ok(0x8000_0001));
    assert_eq!(&m.raw_bytes()[0..8], &[1, 0, 0, 0x80, 0, 0, 0, 0]);
    m.store32(&16, &0xcafe_f00d).unwrap();
    assert_eq!(m.execute_load32(16), Ok(0xcafe_f00d));
    assert_eq!(m.execute_load16(18), Ok(0xcafe));
    // the address is cut to the register's width before the check
    assert_eq!(m.execute_load16((1u64 << 32) + 18), Ok(0xcafe));
}

#[test]
fn out_of_bounds_loads_and_stores_fail() {
    let mut m = small();
    let size = (RISCV_PAGESIZE * 4) as u64;
    let before = m.raw_bytes().to_vec();
    assert_eq!(m.load8(&size), Err(Error::MemOutOfBound));
    assert_eq!(m.load16(&(size - 1)), Err(Error::MemOutOfBound));
    assert_eq!(m.load32(&(size - 3)), Err(Error::MemOutOfBound));
    assert_eq!(m.load64(&(size - 7)), Err(Error::MemOutOfBound));
    assert_eq!(m.load64(&u64::MAX), Err(Error::MemOutOfBound));
    assert_eq!(m.load32(&(u64::MAX - 2)), Err(Error::MemOutOfBound));
    assert_eq!(m.store8(&size, &1), Err(Error::MemOutOfBound));
    assert_eq!(m.store16(&(size - 1), &1), Err(Error::MemOutOfBound));
    assert_eq!(m.store32(&(size - 2), &1), Err(Error::MemOutOfBound));
    assert_eq!(m.store64(&(u64::MAX - 3), &1), Err(Error::MemOutOfBound));
    assert_eq!(m.store_bytes(size - 1, &[1, 2]), Err(Error::MemOutOfBound));
    assert_eq!(m.store_byte(u64::MAX, 2, 7), Err(Error::MemOutOfBound));
    assert_eq!(m.load_bytes(u64::MAX, 2), Err(Error::MemOutOfBound));
    assert_eq!(m.load_bytes(size - 1, 2), Err(Error::MemOutOfBound));
    assert_eq!(m.execute_load16(size - 1), Err(Error::MemOutOfBound));
    assert_eq!(m.execute_load32(size), Err(Error::MemOutOfBound));
    assert_eq!(m.raw_bytes().to_vec(), before);
    for p in 0..4 {
        assert_eq!(m.fetch_flag(p), Ok(0));
    }
}

#[test]
fn last_bytes_are_in_bounds() {
    let mut m = small();
    let size = (RISCV_PAGESIZE * 4) as u64;
    assert_eq!(m.store8(&(size - 1), &9), Ok(()));
    assert_eq!(m.load8(&(size - 1)), Ok(9));
    assert_eq!(m.load_bytes(size - 1, 1).unwrap().to_vec(), vec![9]);
}

#[test]
fn zero_length_requests_are_no_ops() {
    let mut m = small();
    let b = m.load_bytes(u64::MAX, 0).unwrap();
    assert!(b.is_empty());
    assert_eq!(m.store_bytes(u64::MAX, &[]), Ok(()));
    assert_eq!(m.store_byte(u64::MAX, 0, 5), Ok(()));
    assert_eq!(m.init_pages(u64::MAX, 0, 0, None, 0), Ok(()));
    assert!(m.raw_bytes().iter().all(|b| *b == 0));
    for p in 0..4 {
        assert_eq!(m.fetch_flag(p), Ok(0));
    }
}

#[test]
fn load_bytes_copies_the_span() {
    let mut m = small();
    m.store_bytes(100, &[1, 2, 3, 4, 5]).unwrap();
    assert_eq!(m.load_bytes(101, 3).unwrap().to_vec(), vec![2, 3, 4]);
}

#[test]
fn store_byte_fills_the_span() {
    let mut m = small();
    m.store_byte(4090, 10, 0xaa).unwrap();
    assert_eq!(m.load_bytes(4089, 12).unwrap().to_vec(), {
        let mut v = vec![0u8];
        v.extend(vec![0xaa; 10]);
        v.push(0);
        v
    });
    assert_eq!(m.fetch_flag(0), Ok(FLAG_DIRTY));
    assert_eq!(m.fetch_flag(1), Ok(FLAG_DIRTY));
    assert_eq!(m.fetch_flag(2), Ok(0));
}

#[test]
fn reset_clears_everything() {
    let mut m = small();
    m.store64(&8, &0x1234).unwrap();
    m.set_flag(3, 0x1).unwrap();
    m.set_lr(&64);
    assert_eq!(*m.lr(), 64);
    assert_eq!(m.reset_memory(), Ok(()));
    assert!(m.raw_bytes().iter().all(|b| *b == 0));
    for p in 0..4 {
        assert_eq!(m.fetch_flag(p), Ok(0));
    }
    assert_eq!(*m.lr(), u64::MAX);
    assert_eq!(m.memory_size(), RISCV_PAGESIZE * 4);
}

#[test]
fn flags_set_clear_and_bounds() {
    let mut m = small();
    assert_eq!(m.set_flag(2, 0b011), Ok(()));
    assert_eq!(m.set_flag(2, 0b100), Ok(()));
    assert_eq!(m.fetch_flag(2), Ok(0b111));
    assert_eq!(m.clear_flag(2, 0b010), Ok(()));
    assert_eq!(m.fetch_flag(2), Ok(0b101));
    assert_eq!(m.fetch_flag(4), Err(Error::MemOutOfBound));
    assert_eq!(m.set_flag(4, 1), Err(Error::MemOutOfBound));
    assert_eq!(m.clear_flag(u64::MAX, 1), Err(Error::MemOutOfBound));
}

#[test]
fn store_confined_to_one_page_marks_only_it() {
    let mut m = small();
    m.set_flag(0, 0b1).unwrap();
    m.store32(&((RISCV_PAGESIZE * 2 + 100) as u64), &7).unwrap();
    assert_eq!(m.fetch_flag(0), Ok(0b1));
    assert_eq!(m.fetch_flag(1), Ok(0));
    assert_eq!(m.fetch_flag(2), Ok(FLAG_DIRTY));
    assert_eq!(m.fetch_flag(3), Ok(0));
    m.store8(&0, &1).unwrap();
    assert_eq!(m.fetch_flag(0), Ok(0b1 | FLAG_DIRTY));
}

#[test]
fn straddling_store_scenario() {
    let mut m = FlatMemory::<u64>::new_with_memory(RISCV_PAGESIZE * 4);
    let addr = (RISCV_PAGESIZE - 2) as u64;
    m.store32(&addr, &0xDEADBEEF).unwrap();
    assert_eq!(m.fetch_flag(0).unwrap() & FLAG_DIRTY, FLAG_DIRTY);
    assert_eq!(m.fetch_flag(1).unwrap() & FLAG_DIRTY, FLAG_DIRTY);
    assert_eq!(m.fetch_flag(2), Ok(0));
    assert_eq!(m.load32(&addr), Ok(0xDEADBEEF));
}

#[test]
fn init_pages_places_source_after_offset() {
    let mut m = small();
    m.store_byte(4096, 16, 0xff).unwrap();
    m.clear_flag(1, FLAG_DIRTY).unwrap();
    let src = Bytes::from(vec![1u8, 2, 3]);
    assert_eq!(m.init_pages(4096, 8, 0, Some(src), 2), Ok(()));
    assert_eq!(
        m.load_bytes(4096, 10).unwrap().to_vec(),
        vec![0, 0, 1, 2, 3, 0, 0, 0, 0xff, 0xff]
    );
    assert_eq!(m.fetch_flag(1), Ok(FLAG_DIRTY));
}

#[test]
fn init_pages_cuts_source_and_zero_fills() {
    let mut m = small();
    m.store_byte(0, 8, 0xee).unwrap();
    let src = Bytes::from(vec![9u8, 8, 7, 6, 5]);
    assert_eq!(m.init_pages(0, 3, 0, Some(src), 0), Ok(()));
    assert_eq!(m.load_bytes(0, 4).unwrap().to_vec(), vec![9, 8, 7, 0xee]);
    assert_eq!(m.init_pages(2, 4, 0, None, 1), Ok(()));
    assert_eq!(m.load_bytes(0, 7).unwrap().to_vec(), vec![9, 8, 0, 0, 0, 0, 0xee]);
    let size = (RISCV_PAGESIZE * 4) as u64;
    assert_eq!(m.init_pages(size - 2, 4, 0, None, 0), Err(Error::MemOutOfBound));
}

#[test]
fn page_indices_of_spans() {
    assert_eq!(get_page_indices(0, 1), Ok((0, 0)));
    assert_eq!(get_page_indices(4094, 4), Ok((0, 1)));
    assert_eq!(get_page_indices(4096, 4096), Ok((1, 1)));
    assert_eq!(
        get_page_indices(RISCV_MAX_MEMORY as u64 - 1, 1),
        Ok((1023, 1023))
    );
    assert_eq!(
        get_page_indices(RISCV_MAX_MEMORY as u64, 1),
        Err(Error::MemOutOfBound)
    );
    assert_eq!(get_page_indices(u64::MAX, 2), Err(Error::MemOutOfBound));
}
