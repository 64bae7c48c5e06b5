//! A flat memory: one contiguous byte buffer plus one flag byte per page,
//! with bounds-checked little-endian loads and stores.
use vstd::prelude::*;
use bytes::Bytes;
use crate::buffer::{bytes_as_slice, bytes_from_vec, bytes_view, empty_bytes};
use crate::endian::{
    lemma_le_u16_round_trip, lemma_le_u32_round_trip, lemma_le_u64_round_trip, le_bytes_u16, le_bytes_u32, le_bytes_u64, le_u16, le_u32, le_u64, overwrite, read_u16_at,
    read_u32_at, read_u64_at, write_u16_at, write_u32_at, write_u64_at,
};
use crate::error::Error;
use crate::register::Register;
use crate::{FLAG_DIRTY, RISCV_MAX_MEMORY, RISCV_PAGESIZE};

verus! {

/// The span `[addr, addr + size)` lies inside a memory of `memory_size` bytes.
pub open spec fn in_bounds(addr: int, size: int, memory_size: int) -> bool {
    addr + size <= memory_size
}

/// Index of the page that holds byte `addr`.
pub open spec fn page_of(addr: int) -> int {
    addr / (RISCV_PAGESIZE as int)
}

/// The flags after every page touched by `[addr, addr + size)` has been
/// marked dirty (`size > 0`).
pub open spec fn mark_dirty(flags: Seq<u8>, addr: int, size: int) -> Seq<u8> {
    Seq::new(
        flags.len(),
        |i: int|
            if page_of(addr) <= i <= page_of(addr + size - 1) {
                flags[i] | FLAG_DIRTY
            } else {
                flags[i]
            },
    )
}

/// What `init_pages` writes over `[addr, addr + size)`: `offset` zero bytes,
/// then the source bytes, then zeros up to `size`.
pub open spec fn page_fill(size: int, source: Seq<u8>, offset: int) -> Seq<u8> {
    Seq::new(
        size as nat,
        |i: int|
            if offset <= i < offset + source.len() {
                source[i - offset]
            } else {
                0u8
            },
    )
}

/// The bytes of an optional source; none when it is absent.
pub open spec fn source_view(source: Option<Bytes>) -> Seq<u8> {
    match source {
        Some(b) => bytes_view(b),
        None => Seq::empty(),
    }
}

/// `n` copies of `v`.
pub open spec fn repeat(v: u8, n: int) -> Seq<u8> {
    Seq::new(n as nat, |i: int| v)
}

/// A flat chunk of memory for a RISC-V machine, without permission checks.
pub struct FlatMemory<R> {
    data: Vec<u8>,
    flags: Vec<u8>,
    memory_size: usize,
    riscv_pages: usize,
    load_reservation_address: R,
}

impl<R: Register> FlatMemory<R> {
    /// The bytes of the address space, address 0 first.
    pub closed spec fn bytes(&self) -> Seq<u8> {
        self.data@
    }

    /// The flag byte of each page.
    pub closed spec fn page_flags(&self) -> Seq<u8> {
        self.flags@
    }

    /// Size of the address space in bytes.
    pub closed spec fn size(&self) -> nat {
        self.memory_size as nat
    }

    /// Number of pages.
    pub closed spec fn pages(&self) -> nat {
        self.riscv_pages as nat
    }

    /// The load-reservation slot.
    pub closed spec fn reservation(&self) -> R {
        self.load_reservation_address
    }

    /// The sizes agree: whole pages, within the supported maximum, one flag
    /// byte per page.
    pub open spec fn wf(&self) -> bool {
        &&& self.size() <= RISCV_MAX_MEMORY
        &&& self.size() % (RISCV_PAGESIZE as nat) == 0
        &&& self.pages() == self.size() / (RISCV_PAGESIZE as nat)
        &&& self.bytes().len() == self.size()
        &&& self.page_flags().len() == self.pages()
    }

    /// `self` and `other` agree on everything but the page flags.
    pub open spec fn same_except_flags(&self, other: Self) -> bool {
        &&& self.bytes() == other.bytes()
        &&& self.size() == other.size()
        &&& self.pages() == other.pages()
        &&& self.reservation() == other.reservation()
    }

    /// `self` is `prev` after `b` was written at `addr` and every page that
    /// the write touched was marked dirty (`b` not empty).
    pub open spec fn stored(&self, prev: Self, addr: int, b: Seq<u8>) -> bool {
        &&& self.bytes() == overwrite(prev.bytes(), addr, b)
        &&& self.page_flags() == mark_dirty(prev.page_flags(), addr, b.len() as int)
        &&& self.size() == prev.size()
        &&& self.pages() == prev.pages()
        &&& self.reservation() == prev.reservation()
    }

    /// Memory of `memory_size` zero bytes with every page flag clear and no
    /// reservation.
    pub fn new_with_memory(memory_size: usize) -> (r: Self)
        requires
            memory_size <= RISCV_MAX_MEMORY,
            memory_size % RISCV_PAGESIZE == 0,
        ensures
            r.wf(),
            r.size() == memory_size,
            r.bytes() == repeat(0, memory_size as int),
            r.page_flags() == repeat(0, (memory_size / RISCV_PAGESIZE) as int),
            r.reservation().value() == R::truncate(u64::MAX),
    {
        let pages = memory_size / RISCV_PAGESIZE;
        let mut data: Vec<u8> = Vec::new();
        fill_zero(&mut data, memory_size);
        let mut flags: Vec<u8> = Vec::new();
        fill_zero(&mut flags, pages);
        let r = FlatMemory {
            data,
            flags,
            memory_size,
            riscv_pages: pages,
            load_reservation_address: R::from_u64(u64::MAX),
        };
        assert(r.bytes() =~= repeat(0, memory_size as int));
        assert(r.page_flags() =~= repeat(0, pages as int));
        r
    }

    /// Zero every byte and every page flag, and clear the reservation.
    pub fn reset_memory(&mut self) -> (r: Result<(), Error>)
        requires
            old(self).wf(),
        ensures
            r == Ok::<(), Error>(()),
            final(self).wf(),
            final(self).size() == old(self).size(),
            final(self).bytes() == repeat(0, old(self).size() as int),
            final(self).page_flags() == repeat(0, old(self).pages() as int),
            final(self).reservation().value() == R::truncate(u64::MAX),
    {
        let n = self.data.len();
        self.data.clear();
        fill_zero(&mut self.data, n);
        let p = self.flags.len();
        self.flags.clear();
        fill_zero(&mut self.flags, p);
        self.load_reservation_address = R::from_u64(u64::MAX);
        assert(self.bytes() =~= repeat(0, old(self).size() as int));
        assert(self.page_flags() =~= repeat(0, old(self).pages() as int));
        Ok(())
    }

    /// Size of the address space in bytes.
    pub fn memory_size(&self) -> (r: usize)
        ensures
            r == self.size(),
    {
        self.memory_size
    }

    /// The bytes of the address space, for callers that have already checked
    /// the range they copy; no bounds are checked here.
    pub fn raw_bytes(&self) -> (r: &[u8])
        ensures
            r@ == self.bytes(),
    {
        self.data.as_slice()
    }

    /// The flag byte of page `page`.
    pub fn fetch_flag(&mut self, page: u64) -> (r: Result<u8, Error>)
        requires
            old(self).wf(),
        ensures
            *final(self) == *old(self),
            page < old(self).pages() ==> r == Ok::<u8, Error>(old(self).page_flags()[page as int]),
            page >= old(self).pages() ==> r == Err::<u8, Error>(Error::MemOutOfBound),
    {
        if page < self.riscv_pages as u64 {
            Ok(self.flags[page as usize])
        } else {
            Err(Error::MemOutOfBound)
        }
    }

    /// Set the bits of `flag` in the flag byte of page `page`.
    pub fn set_flag(&mut self, page: u64, flag: u8) -> (r: Result<(), Error>)
        requires
            old(self).wf(),
        ensures
            final(self).wf(),
            page < old(self).pages() ==> r == Ok::<(), Error>(()) && final(self).same_except_flags(
                *old(self),
            ) && final(self).page_flags() == old(self).page_flags().update(
                page as int,
                old(self).page_flags()[page as int] | flag,
            ),
            page >= old(self).pages() ==> r == Err::<(), Error>(Error::MemOutOfBound) && *final(self) == *old(self),
    {
        if page < self.riscv_pages as u64 {
            let f = self.flags[page as usize] | flag;
            self.flags.set(page as usize, f);
            Ok(())
        } else {
            Err(Error::MemOutOfBound)
        }
    }

    /// Clear the bits of `flag` in the flag byte of page `page`.
    pub fn clear_flag(&mut self, page: u64, flag: u8) -> (r: Result<(), Error>)
        requires
            old(self).wf(),
        ensures
            final(self).wf(),
            page < old(self).pages() ==> r == Ok::<(), Error>(()) && final(self).same_except_flags(
                *old(self),
            ) && final(self).page_flags() == old(self).page_flags().update(
                page as int,
                old(self).page_flags()[page as int] & !flag,
            ),
            page >= old(self).pages() ==> r == Err::<(), Error>(Error::MemOutOfBound) && *final(self) == *old(self),
    {
        if page < self.riscv_pages as u64 {
            let f = self.flags[page as usize] & !flag;
            self.flags.set(page as usize, f);
            Ok(())
        } else {
            Err(Error::MemOutOfBound)
        }
    }

    /// Whether `[addr, addr + size)` lies inside the memory; the sum is
    /// computed without wrapping.
    fn span_in_bounds(&self, addr: u64, size: u64) -> (r: bool)
        requires
            self.wf(),
        ensures
            r == in_bounds(addr as int, size as int, self.size() as int),
    {
        match addr.checked_add(size) {
            Some(end) => end <= self.memory_size as u64,
            None => false,
        }
    }

    /// The byte at `addr`, zero-extended into a register.
    pub fn load8(&mut self, addr: &R) -> (r: Result<R, Error>)
        requires
            old(self).wf(),
        ensures
            *final(self) == *old(self),
            in_bounds(addr.value() as int, 1, old(self).size() as int) ==> r.is_ok() && r.unwrap().value()
                == old(self).bytes()[addr.value() as int] as u64,
            !in_bounds(addr.value() as int, 1, old(self).size() as int) ==> r == Err::<R, Error>(
                Error::MemOutOfBound,
            ),
    {
        let a = addr.to_u64();
        if !self.span_in_bounds(a, 1) {
            return Err(Error::MemOutOfBound);
        }
        Ok(R::from_u8(self.data[a as usize]))
    }

    /// The little-endian 16-bit value at `addr`, zero-extended into a register.
    pub fn load16(&mut self, addr: &R) -> (r: Result<R, Error>)
        requires
            old(self).wf(),
        ensures
            *final(self) == *old(self),
            in_bounds(addr.value() as int, 2, old(self).size() as int) ==> r.is_ok() && r.unwrap().value()
                == le_u16(old(self).bytes().subrange(addr.value() as int, addr.value() + 2)) as u64,
            !in_bounds(addr.value() as int, 2, old(self).size() as int) ==> r == Err::<R, Error>(
                Error::MemOutOfBound,
            ),
    {
        let a = addr.to_u64();
        if !self.span_in_bounds(a, 2) {
            return Err(Error::MemOutOfBound);
        }
        Ok(R::from_u16(read_u16_at(&self.data, a as usize)))
    }

    /// The little-endian 32-bit value at `addr`, zero-extended into a register.
    pub fn load32(&mut self, addr: &R) -> (r: Result<R, Error>)
        requires
            old(self).wf(),
        ensures
            *final(self) == *old(self),
            in_bounds(addr.value() as int, 4, old(self).size() as int) ==> r.is_ok() && r.unwrap().value()
                == le_u32(old(self).bytes().subrange(addr.value() as int, addr.value() + 4)) as u64,
            !in_bounds(addr.value() as int, 4, old(self).size() as int) ==> r == Err::<R, Error>(
                Error::MemOutOfBound,
            ),
    {
        let a = addr.to_u64();
        if !self.span_in_bounds(a, 4) {
            return Err(Error::MemOutOfBound);
        }
        Ok(R::from_u32(read_u32_at(&self.data, a as usize)))
    }

    /// The little-endian 64-bit value at `addr`, cut to the register's width.
    pub fn load64(&mut self, addr: &R) -> (r: Result<R, Error>)
        requires
            old(self).wf(),
        ensures
            *final(self) == *old(self),
            in_bounds(addr.value() as int, 8, old(self).size() as int) ==> r.is_ok() && r.unwrap().value()
                == R::truncate(
                le_u64(old(self).bytes().subrange(addr.value() as int, addr.value() + 8)),
            ),
            !in_bounds(addr.value() as int, 8, old(self).size() as int) ==> r == Err::<R, Error>(
                Error::MemOutOfBound,
            ),
    {
        let a = addr.to_u64();
        if !self.span_in_bounds(a, 8) {
            return Err(Error::MemOutOfBound);
        }
        Ok(R::from_u64(read_u64_at(&self.data, a as usize)))
    }

    /// The little-endian 16-bit value at `addr`, the address first taken to
    /// the register's width.
    pub fn execute_load16(&mut self, addr: u64) -> (r: Result<u16, Error>)
        requires
            old(self).wf(),
        ensures
            *final(self) == *old(self),
            in_bounds(R::truncate(addr) as int, 2, old(self).size() as int) ==> r == Ok::<u16, Error>(
                le_u16(old(self).bytes().subrange(R::truncate(addr) as int, R::truncate(addr) + 2)),
            ),
            !in_bounds(R::truncate(addr) as int, 2, old(self).size() as int) ==> r == Err::<u16, Error>(
                Error::MemOutOfBound,
            ),
    {
        match self.load16(&R::from_u64(addr)) {
            Ok(v) => Ok(v.to_u16()),
            Err(e) => Err(e),
        }
    }

    /// The little-endian 32-bit value at `addr`, the address first taken to
    /// the register's width.
    pub fn execute_load32(&mut self, addr: u64) -> (r: Result<u32, Error>)
        requires
            old(self).wf(),
        ensures
            *final(self) == *old(self),
            in_bounds(R::truncate(addr) as int, 4, old(self).size() as int) ==> r == Ok::<u32, Error>(
                le_u32(old(self).bytes().subrange(R::truncate(addr) as int, R::truncate(addr) + 4)),
            ),
            !in_bounds(R::truncate(addr) as int, 4, old(self).size() as int) ==> r == Err::<u32, Error>(
                Error::MemOutOfBound,
            ),
    {
        match self.load32(&R::from_u64(addr)) {
            Ok(v) => Ok(v.to_u32()),
            Err(e) => Err(e),
        }
    }

    /// The reservation slot.
    pub fn lr(&self) -> (r: &R)
        ensures
            *r == self.reservation(),
    {
        &self.load_reservation_address
    }

    /// Overwrite the reservation slot.
    pub fn set_lr(&mut self, value: &R)
        ensures
            final(self).reservation() == *value,
            final(self).bytes() == old(self).bytes(),
            final(self).page_flags() == old(self).page_flags(),
            final(self).size() == old(self).size(),
            final(self).pages() == old(self).pages(),
    {
        self.load_reservation_address = *value;
    }

    /// Mark the pages `first` to `last`, both included, dirty.
    fn set_dirty(&mut self, first: u64, last: u64)
        requires
            old(self).wf(),
            first <= last < old(self).pages(),
        ensures
            final(self).wf(),
            final(self).same_except_flags(*old(self)),
            final(self).page_flags() == Seq::new(
                old(self).pages(),
                |i: int|
                    if first <= i <= last {
                        old(self).page_flags()[i] | FLAG_DIRTY
                    } else {
                        old(self).page_flags()[i]
                    },
            ),
    {
        let ghost start = *self;
        let mut page: u64 = first;
        while page <= last
            invariant
                self.wf(),
                self.same_except_flags(start),
                start.wf(),
                first <= page <= last + 1,
                last < start.pages(),
                forall|i: int|
                    0 <= i < start.pages() ==> #[trigger] self.page_flags()[i] == if first <= i
                        < page {
                        start.page_flags()[i] | FLAG_DIRTY
                    } else {
                        start.page_flags()[i]
                    },
            decreases last + 1 - page,
        {
            let _ = self.set_flag(page, FLAG_DIRTY);
            page = page + 1;
        }
        assert(self.page_flags() =~= Seq::new(
            start.pages(),
            |i: int|
                if first <= i <= last {
                    start.page_flags()[i] | FLAG_DIRTY
                } else {
                    start.page_flags()[i]
                },
        ));
    }

    /// Check `[addr, addr + size)` against the memory and mark the pages it
    /// touches dirty; nothing changes when the span does not fit.
    fn prepare_store(&mut self, addr: u64, size: u64) -> (r: Result<(), Error>)
        requires
            old(self).wf(),
            size > 0,
        ensures
            final(self).wf(),
            in_bounds(addr as int, size as int, old(self).size() as int) ==> r == Ok::<(), Error>(())
                && final(self).same_except_flags(*old(self)) && final(self).page_flags()
                == mark_dirty(old(self).page_flags(), addr as int, size as int),
            !in_bounds(addr as int, size as int, old(self).size() as int) ==> r == Err::<(), Error>(
                Error::MemOutOfBound,
            ) && *final(self) == *old(self),
    {
        if !self.span_in_bounds(addr, size) {
            return Err(Error::MemOutOfBound);
        }
        let (first, last) = match get_page_indices(addr, size) {
            Ok(p) => p,
            Err(e) => return Err(e),
        };
        proof {
            lemma_page_le(addr + size - 1, self.size() - 1);
            assert(page_of(self.size() - 1) < self.pages()) by (nonlinear_arith)
                requires
                    self.size() % 4096 == 0,
                    self.pages() == self.size() / 4096,
                    self.size() > 0,
            ;
            lemma_page_le(addr as int, addr + size - 1);
        }
        self.set_dirty(first, last);
        assert(self.page_flags() =~= mark_dirty(old(self).page_flags(), addr as int, size as int));
        Ok(())
    }

    /// Store the low byte of `value` at `addr`.
    pub fn store8(&mut self, addr: &R, value: &R) -> (r: Result<(), Error>)
        requires
            old(self).wf(),
        ensures
            final(self).wf(),
            in_bounds(addr.value() as int, 1, old(self).size() as int) ==> r == Ok::<(), Error>(())
                && final(self).stored(*old(self), addr.value() as int, seq![value.value() as u8]),
            !in_bounds(addr.value() as int, 1, old(self).size() as int) ==> r == Err::<(), Error>(
                Error::MemOutOfBound,
            ) && *final(self) == *old(self),
    {
        let a = addr.to_u64();
        match self.prepare_store(a, 1) {
            Ok(()) => {},
            Err(e) => return Err(e),
        }
        self.data.set(a as usize, value.to_u8());
        assert(self.bytes() =~= overwrite(old(self).bytes(), a as int, seq![value.value() as u8]));
        Ok(())
    }

    /// Store the low 16 bits of `value` at `addr`, least significant byte first.
    pub fn store16(&mut self, addr: &R, value: &R) -> (r: Result<(), Error>)
        requires
            old(self).wf(),
        ensures
            final(self).wf(),
            in_bounds(addr.value() as int, 2, old(self).size() as int) ==> r == Ok::<(), Error>(())
                && final(self).stored(
                *old(self),
                addr.value() as int,
                le_bytes_u16(value.value() as u16),
            ),
            !in_bounds(addr.value() as int, 2, old(self).size() as int) ==> r == Err::<(), Error>(
                Error::MemOutOfBound,
            ) && *final(self) == *old(self),
    {
        let a = addr.to_u64();
        match self.prepare_store(a, 2) {
            Ok(()) => {},
            Err(e) => return Err(e),
        }
        write_u16_at(&mut self.data, a as usize, value.to_u16());
        Ok(())
    }

    /// Store the low 32 bits of `value` at `addr`, least significant byte first.
    pub fn store32(&mut self, addr: &R, value: &R) -> (r: Result<(), Error>)
        requires
            old(self).wf(),
        ensures
            final(self).wf(),
            in_bounds(addr.value() as int, 4, old(self).size() as int) ==> r == Ok::<(), Error>(())
                && final(self).stored(
                *old(self),
                addr.value() as int,
                le_bytes_u32(value.value() as u32),
            ),
            !in_bounds(addr.value() as int, 4, old(self).size() as int) ==> r == Err::<(), Error>(
                Error::MemOutOfBound,
            ) && *final(self) == *old(self),
    {
        let a = addr.to_u64();
        match self.prepare_store(a, 4) {
            Ok(()) => {},
            Err(e) => return Err(e),
        }
        write_u32_at(&mut self.data, a as usize, value.to_u32());
        Ok(())
    }

    /// Store the 64 bits of `value` at `addr`, least significant byte first.
    pub fn store64(&mut self, addr: &R, value: &R) -> (r: Result<(), Error>)
        requires
            old(self).wf(),
        ensures
            final(self).wf(),
            in_bounds(addr.value() as int, 8, old(self).size() as int) ==> r == Ok::<(), Error>(())
                && final(self).stored(*old(self), addr.value() as int, le_bytes_u64(value.value())),
            !in_bounds(addr.value() as int, 8, old(self).size() as int) ==> r == Err::<(), Error>(
                Error::MemOutOfBound,
            ) && *final(self) == *old(self),
    {
        let a = addr.to_u64();
        match self.prepare_store(a, 8) {
            Ok(()) => {},
            Err(e) => return Err(e),
        }
        write_u64_at(&mut self.data, a as usize, value.to_u64());
        Ok(())
    }

    /// Write `src` at `addr`, the range already checked.
    fn copy_in(&mut self, addr: u64, src: &[u8])
        requires
            old(self).wf(),
            addr + src@.len() <= old(self).size(),
        ensures
            final(self).wf(),
            final(self).bytes() == overwrite(old(self).bytes(), addr as int, src@),
            final(self).page_flags() == old(self).page_flags(),
            final(self).size() == old(self).size(),
            final(self).pages() == old(self).pages(),
            final(self).reservation() == old(self).reservation(),
    {
        let ghost start = *self;
        let n = src.len();
        let mut i: usize = 0;
        while i < n
            invariant
                self.wf(),
                start.wf(),
                n == src@.len(),
                addr + n <= start.size(),
                i <= n,
                self.page_flags() == start.page_flags(),
                self.size() == start.size(),
                self.pages() == start.pages(),
                self.reservation() == start.reservation(),
                forall|j: int|
                    0 <= j < start.size() ==> #[trigger] self.bytes()[j] == if addr <= j < addr
                        + i {
                        src@[j - addr]
                    } else {
                        start.bytes()[j]
                    },
            decreases n - i,
        {
            self.data.set(addr as usize + i, src[i]);
            i = i + 1;
        }
        assert(self.bytes() =~= overwrite(start.bytes(), addr as int, src@));
    }

    /// Write `size` copies of `value` at `addr`, the range already checked.
    fn fill_in(&mut self, addr: u64, size: u64, value: u8)
        requires
            old(self).wf(),
            addr + size <= old(self).size(),
        ensures
            final(self).wf(),
            final(self).bytes() == overwrite(old(self).bytes(), addr as int, repeat(value, size as int)),
            final(self).page_flags() == old(self).page_flags(),
            final(self).size() == old(self).size(),
            final(self).pages() == old(self).pages(),
            final(self).reservation() == old(self).reservation(),
    {
        let ghost start = *self;
        let mut i: u64 = 0;
        while i < size
            invariant
                self.wf(),
                start.wf(),
                addr + size <= start.size(),
                i <= size,
                self.page_flags() == start.page_flags(),
                self.size() == start.size(),
                self.pages() == start.pages(),
                self.reservation() == start.reservation(),
                forall|j: int|
                    0 <= j < start.size() ==> #[trigger] self.bytes()[j] == if addr <= j < addr
                        + i {
                        value
                    } else {
                        start.bytes()[j]
                    },
            decreases size - i,
        {
            self.data.set((addr + i) as usize, value);
            i = i + 1;
        }
        assert(self.bytes() =~= overwrite(start.bytes(), addr as int, repeat(value, size as int)));
    }

    /// Write the bytes of `value` at `addr`; an empty `value` is a no-op,
    /// whatever `addr` is.
    pub fn store_bytes(&mut self, addr: u64, value: &[u8]) -> (r: Result<(), Error>)
        requires
            old(self).wf(),
        ensures
            final(self).wf(),
            value@.len() == 0 ==> r == Ok::<(), Error>(()) && *final(self) == *old(self),
            value@.len() > 0 && in_bounds(addr as int, value@.len() as int, old(self).size() as int)
                ==> r == Ok::<(), Error>(()) && final(self).stored(*old(self), addr as int, value@),
            value@.len() > 0 && !in_bounds(addr as int, value@.len() as int, old(self).size() as int)
                ==> r == Err::<(), Error>(Error::MemOutOfBound) && *final(self) == *old(self),
    {
        let size = value.len() as u64;
        if size == 0 {
            return Ok(());
        }
        match self.prepare_store(addr, size) {
            Ok(()) => {},
            Err(e) => return Err(e),
        }
        self.copy_in(addr, value);
        Ok(())
    }

    /// Write `size` copies of `value` at `addr`; a zero `size` is a no-op,
    /// whatever `addr` is.
    pub fn store_byte(&mut self, addr: u64, size: u64, value: u8) -> (r: Result<(), Error>)
        requires
            old(self).wf(),
        ensures
            final(self).wf(),
            size == 0 ==> r == Ok::<(), Error>(()) && *final(self) == *old(self),
            size > 0 && in_bounds(addr as int, size as int, old(self).size() as int) ==> r == Ok::<
                (),
                Error,
            >(()) && final(self).stored(*old(self), addr as int, repeat(value, size as int)),
            size > 0 && !in_bounds(addr as int, size as int, old(self).size() as int) ==> r == Err::<
                (),
                Error,
            >(Error::MemOutOfBound) && *final(self) == *old(self),
    {
        if size == 0 {
            return Ok(());
        }
        match self.prepare_store(addr, size) {
            Ok(()) => {},
            Err(e) => return Err(e),
        }
        self.fill_in(addr, size, value);
        Ok(())
    }

    /// A copy of the `size` bytes at `addr`; a zero `size` gives an empty
    /// buffer, whatever `addr` is.
    pub fn load_bytes(&mut self, addr: u64, size: u64) -> (r: Result<Bytes, Error>)
        requires
            old(self).wf(),
        ensures
            *final(self) == *old(self),
            size == 0 ==> r.is_ok() && bytes_view(r.unwrap()) == Seq::<u8>::empty(),
            size > 0 && in_bounds(addr as int, size as int, old(self).size() as int) ==> r.is_ok()
                && bytes_view(r.unwrap()) == old(self).bytes().subrange(
                addr as int,
                addr + size,
            ),
            size > 0 && !in_bounds(addr as int, size as int, old(self).size() as int) ==> r == Err::<
                Bytes,
                Error,
            >(Error::MemOutOfBound),
    {
        if size == 0 {
            return Ok(empty_bytes());
        }
        if !self.span_in_bounds(addr, size) {
            return Err(Error::MemOutOfBound);
        }
        let mut out: Vec<u8> = Vec::new();
        let mut i: u64 = 0;
        while i < size
            invariant
                self.wf(),
                addr + size <= self.size(),
                i <= size,
                out@ == self.bytes().subrange(addr as int, addr + i),
            decreases size - i,
        {
            out.push(self.data[(addr + i) as usize]);
            i = i + 1;
            assert(out@ =~= self.bytes().subrange(addr as int, addr + i));
        }
        Ok(bytes_from_vec(out))
    }

    /// Fill `[addr, addr + size)` with `offset_from_addr` zero bytes, then the
    /// bytes of `source`, then zeros, marking the pages dirty. `flags` is not
    /// enforced by a flat memory. A zero `size` is a no-op.
    pub fn init_pages(
        &mut self,
        addr: u64,
        size: u64,
        flags: u8,
        source: Option<Bytes>,
        offset_from_addr: u64,
    ) -> (r: Result<(), Error>)
        requires
            old(self).wf(),
        ensures
            final(self).wf(),
            size == 0 ==> r == Ok::<(), Error>(()) && *final(self) == *old(self),
            size > 0 && in_bounds(addr as int, size as int, old(self).size() as int) ==> r == Ok::<
                (),
                Error,
            >(()) && final(self).stored(
                *old(self),
                addr as int,
                page_fill(size as int, source_view(source), offset_from_addr as int),
            ),
            size > 0 && !in_bounds(addr as int, size as int, old(self).size() as int) ==> r == Err::<
                (),
                Error,
            >(Error::MemOutOfBound) && *final(self) == *old(self),
    {
        if size == 0 {
            return Ok(());
        }
        match self.prepare_store(addr, size) {
            Ok(()) => {},
            Err(e) => return Err(e),
        }
        let ghost start = *self;
        let none: Vec<u8> = Vec::new();
        let src: &[u8] = match &source {
            Some(b) => bytes_as_slice(b),
            None => none.as_slice(),
        };
        assert(src@ == source_view(source));
        let mut i: u64 = 0;
        while i < size
            invariant
                self.wf(),
                start.wf(),
                addr + size <= start.size(),
                i <= size,
                self.page_flags() == start.page_flags(),
                self.size() == start.size(),
                self.pages() == start.pages(),
                self.reservation() == start.reservation(),
                forall|j: int|
                    0 <= j < start.size() ==> #[trigger] self.bytes()[j] == if addr <= j < addr
                        + i {
                        page_fill(size as int, src@, offset_from_addr as int)[j - addr]
                    } else {
                        start.bytes()[j]
                    },
            decreases size - i,
        {
            let b: u8 = if i >= offset_from_addr && i - offset_from_addr < src.len() as u64 {
                src[(i - offset_from_addr) as usize]
            } else {
                0
            };
            self.data.set((addr + i) as usize, b);
            i = i + 1;
        }
        assert(self.bytes() =~= overwrite(
            start.bytes(),
            addr as int,
            page_fill(size as int, src@, offset_from_addr as int),
        ));
        Ok(())
    }
}

impl<R: Register> Default for FlatMemory<R> {
    /// Memory of the largest supported size.
    fn default() -> (r: Self)
        ensures
            r.wf(),
            r.size() == RISCV_MAX_MEMORY,
            r.bytes() == repeat(0, RISCV_MAX_MEMORY as int),
            r.page_flags() == repeat(0, (RISCV_MAX_MEMORY / RISCV_PAGESIZE) as int),
            r.reservation().value() == R::truncate(u64::MAX),
    {
        Self::new_with_memory(RISCV_MAX_MEMORY)
    }
}

/// The bytes that a store of `b` at `addr` leaves in place are `b` itself.
proof fn lemma_stored_span(before: Seq<u8>, addr: int, b: Seq<u8>)
    requires
        0 <= addr,
        addr + b.len() <= before.len(),
    ensures
        overwrite(before, addr, b).subrange(addr, addr + b.len()) == b,
{
    assert(overwrite(before, addr, b).subrange(addr, addr + b.len()) =~= b);
}

/// A byte stored at `addr` is what a later byte load there returns.
pub proof fn lemma_store8_load8<R: Register>(
    before: FlatMemory<R>,
    after: FlatMemory<R>,
    addr: int,
    value: R,
)
    requires
        before.wf(),
        0 <= addr,
        in_bounds(addr, 1, before.size() as int),
        after.stored(before, addr, seq![value.value() as u8]),
    ensures
        after.bytes()[addr] as u64 == value.value() as u8 as u64,
{
}

/// A 16-bit value stored at `addr` is what a later 16-bit load there
/// returns, cut to 16 bits.
pub proof fn lemma_store16_load16<R: Register>(
    before: FlatMemory<R>,
    after: FlatMemory<R>,
    addr: int,
    value: R,
)
    requires
        before.wf(),
        0 <= addr,
        in_bounds(addr, 2, before.size() as int),
        after.stored(before, addr, le_bytes_u16(value.value() as u16)),
    ensures
        le_u16(after.bytes().subrange(addr, addr + 2)) as u64 == value.value() as u16 as u64,
{
    lemma_stored_span(before.bytes(), addr, le_bytes_u16(value.value() as u16));
    lemma_le_u16_round_trip(value.value() as u16);
}

/// A 32-bit value stored at `addr` is what a later 32-bit load there
/// returns, cut to 32 bits.
pub proof fn lemma_store32_load32<R: Register>(
    before: FlatMemory<R>,
    after: FlatMemory<R>,
    addr: int,
    value: R,
)
    requires
        before.wf(),
        0 <= addr,
        in_bounds(addr, 4, before.size() as int),
        after.stored(before, addr, le_bytes_u32(value.value() as u32)),
    ensures
        le_u32(after.bytes().subrange(addr, addr + 4)) as u64 == value.value() as u32 as u64,
{
    lemma_stored_span(before.bytes(), addr, le_bytes_u32(value.value() as u32));
    lemma_le_u32_round_trip(value.value() as u32);
}

/// A 64-bit store followed by a 64-bit load at the same address gives the
/// register value back.
pub proof fn lemma_store64_load64<R: Register>(
    before: FlatMemory<R>,
    after: FlatMemory<R>,
    addr: int,
    value: R,
)
    requires
        before.wf(),
        0 <= addr,
        in_bounds(addr, 8, before.size() as int),
        after.stored(before, addr, le_bytes_u64(value.value())),
    ensures
        R::truncate(le_u64(after.bytes().subrange(addr, addr + 8))) == value.value(),
{
    lemma_stored_span(before.bytes(), addr, le_bytes_u64(value.value()));
    lemma_le_u64_round_trip(value.value());
    value.lemma_value_fits();
}

/// A store marks dirty the page of every byte it writes, and leaves the
/// flags of every other page as they were.
pub proof fn lemma_store_dirties_pages<R: Register>(
    before: FlatMemory<R>,
    after: FlatMemory<R>,
    addr: int,
    b: Seq<u8>,
)
    requires
        before.wf(),
        0 <= addr,
        b.len() > 0,
        in_bounds(addr, b.len() as int, before.size() as int),
        after.stored(before, addr, b),
    ensures
        forall|j: int|
            addr <= j < addr + b.len() ==> 0 <= #[trigger] page_of(j) < after.pages() && after.page_flags()[page_of(j)]
                & FLAG_DIRTY == FLAG_DIRTY,
        forall|p: int|
            0 <= p < before.pages() && !(page_of(addr) <= p <= page_of(addr + b.len() - 1))
                ==> #[trigger] after.page_flags()[p] == before.page_flags()[p],
{
    assert forall|j: int| addr <= j < addr + b.len() implies 0 <= #[trigger] page_of(j) < after.pages()
        && after.page_flags()[page_of(j)] & FLAG_DIRTY == FLAG_DIRTY by {
        lemma_page_le(addr, j);
        lemma_page_le(j, addr + b.len() - 1);
        lemma_page_le(j, before.size() - 1);
        assert(page_of(before.size() - 1) < before.pages()) by (nonlinear_arith)
            requires
                before.size() % 4096 == 0,
                before.pages() == before.size() / 4096,
                before.size() > 0,
        ;
        let f = before.page_flags()[page_of(j)];
        assert((f | 4u8) & 4u8 == 4u8) by (bit_vector);
    }
}

/// The first and the last page touched by `[addr, addr + size)`; fails when
/// the span reaches past the largest supported memory or wraps.
pub fn get_page_indices(addr: u64, size: u64) -> (r: Result<(u64, u64), Error>)
    requires
        size > 0,
    ensures
        in_bounds(addr as int, size as int, RISCV_MAX_MEMORY as int) ==> r == Ok::<(u64, u64), Error>(
            (page_of(addr as int) as u64, page_of(addr + size - 1) as u64),
        ),
        !in_bounds(addr as int, size as int, RISCV_MAX_MEMORY as int) ==> r == Err::<(u64, u64), Error>(
            Error::MemOutOfBound,
        ),
{
    let end = match addr.checked_add(size) {
        Some(e) => e,
        None => return Err(Error::MemOutOfBound),
    };
    if end > RISCV_MAX_MEMORY as u64 {
        return Err(Error::MemOutOfBound);
    }
    Ok((addr / (RISCV_PAGESIZE as u64), (end - 1) / (RISCV_PAGESIZE as u64)))
}

/// Page indices do not decrease with the address.
proof fn lemma_page_le(a: int, b: int)
    requires
        0 <= a <= b,
    ensures
        page_of(a) <= page_of(b),
{
    vstd::arithmetic::div_mod::lemma_div_is_ordered(a, b, 4096);
}

/// Append `n` zero bytes to `v`.
fn fill_zero(v: &mut Vec<u8>, n: usize)
    requires
        old(v)@.len() == 0,
    ensures
        final(v)@.len() == n,
        forall|i: int| 0 <= i < n ==> final(v)@[i] == 0,
{
    let mut i: usize = 0;
    while i < n
        invariant
            i <= n,
            v@.len() == i,
            forall|j: int| 0 <= j < i ==> v@[j] == 0,
        decreases n - i,
    {
        v.push(0);
        i = i + 1;
    }
}

} // verus!
