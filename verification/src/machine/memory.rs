//! Sparse guest memory regions with byte-order-aware access.
use std::collections::BTreeSet;

use vstd::prelude::*;

use vstd::arithmetic::div_mod::{lemma_fundamental_div_mod, lemma_mod_breakdown};
use vstd::arithmetic::mul::{lemma_mul_inequality, lemma_mul_strictly_positive};

verus! {

broadcast use vstd::laws_cmp::group_laws_cmp;

/// Public snapshot of one mapped guest memory region.
#[derive(Debug, Clone, Copy, PartialEq, Eq, Structural)]
pub struct MemoryRegionInfo {
    /// Guest base address of the region.
    pub base: u32,
    /// Size of the region in bytes.
    pub size: usize,
    /// Whether guest writes to the region are rejected.
    pub read_only: bool,
}

/// Why guest memory could not be loaded.
#[derive(Debug, Clone, Copy, PartialEq, Eq, Structural)]
pub enum MemoryError {
    /// No mapped region holds the whole load.
    NotMapped,
}

/// One mapped region of guest memory.
#[derive(Debug)]
pub struct Region {
    pub base: u32,
    pub data: Vec<u8>,
    pub read_only: bool,
}

/// The contents of a region.
pub ghost struct RegionView {
    pub base: u32,
    pub data: Seq<u8>,
    pub read_only: bool,
}

impl View for Region {
    type V = RegionView;

    open spec fn view(&self) -> RegionView {
        RegionView { base: self.base, data: self.data@, read_only: self.read_only }
    }
}

/// Guest memory: its regions, the addresses of rejected accesses and its
/// byte order.
pub ghost struct MemoryView {
    pub regions: Seq<RegionView>,
    pub bad_accesses: Set<u32>,
    pub big_endian: bool,
}

/// `256` to the power `n`.
pub open spec fn spec_pow256(n: nat) -> nat
    decreases n,
{
    if n == 0 {
        1
    } else {
        256 * spec_pow256((n - 1) as nat)
    }
}

/// Value of little-endian bytes.
pub open spec fn spec_le_value(bytes: Seq<u8>) -> nat
    decreases bytes.len(),
{
    if bytes.len() == 0 {
        0
    } else {
        bytes[0] as nat + 256 * spec_le_value(bytes.drop_first())
    }
}

/// Value of big-endian bytes.
pub open spec fn spec_be_value(bytes: Seq<u8>) -> nat
    decreases bytes.len(),
{
    if bytes.len() == 0 {
        0
    } else {
        spec_be_value(bytes.drop_last()) * 256 + bytes.last() as nat
    }
}

/// The low `n` bytes of `v`, least significant first.
pub open spec fn spec_le_bytes(v: nat, n: nat) -> Seq<u8>
    decreases n,
{
    if n == 0 {
        Seq::empty()
    } else {
        seq![(v % 256) as u8] + spec_le_bytes(v / 256, (n - 1) as nat)
    }
}

/// The low `n` bytes of `v`, most significant first.
pub open spec fn spec_be_bytes(v: nat, n: nat) -> Seq<u8>
    decreases n,
{
    if n == 0 {
        Seq::empty()
    } else {
        spec_be_bytes(v / 256, (n - 1) as nat) + seq![(v % 256) as u8]
    }
}

/// Value of guest bytes in the given byte order.
pub open spec fn spec_bytes_value(big_endian: bool, bytes: Seq<u8>) -> nat {
    if big_endian {
        spec_be_value(bytes)
    } else {
        spec_le_value(bytes)
    }
}

/// Guest bytes of the low `size` bytes of `v` in the given byte order.
pub open spec fn spec_value_bytes(big_endian: bool, v: nat, size: nat) -> Seq<u8> {
    if big_endian {
        spec_be_bytes(v, size)
    } else {
        spec_le_bytes(v, size)
    }
}

/// Whether `size` bytes at `address` lie inside the region.
pub open spec fn spec_region_fits(r: RegionView, address: u32, size: int) -> bool {
    address >= r.base && (address - r.base) + size <= r.data.len()
}

/// The first region from index `k` on that holds `size` bytes at `address`.
pub open spec fn spec_find_region_from(regions: Seq<RegionView>, address: u32, size: int, k: int) -> Option<int>
    decreases regions.len() - k,
{
    if k < 0 || k >= regions.len() {
        None
    } else if spec_region_fits(regions[k], address, size) {
        Some(k)
    } else {
        spec_find_region_from(regions, address, size, k + 1)
    }
}

/// The first region that holds `size` bytes at `address`.
pub open spec fn spec_find_region(regions: Seq<RegionView>, address: u32, size: int) -> Option<int> {
    spec_find_region_from(regions, address, size, 0)
}

/// Replace `bytes.len()` bytes of region `i` at `address`.
pub open spec fn spec_store(regions: Seq<RegionView>, i: int, address: u32, bytes: Seq<u8>) -> Seq<RegionView> {
    let r = regions[i];
    let offset = address - r.base;
    regions.update(
        i,
        RegionView {
            data: r.data.subrange(0, offset) + bytes + r.data.subrange(offset + bytes.len(), r.data.len() as int),
            ..r
        },
    )
}

/// A guest read of `size` bytes: the value in the guest byte order, or 0
/// with the address recorded when no region holds the bytes.
pub open spec fn spec_read(m: MemoryView, address: u32, size: int) -> (u32, MemoryView) {
    match spec_find_region(m.regions, address, size) {
        Some(i) => {
            let offset = address - m.regions[i].base;
            (spec_bytes_value(m.big_endian, m.regions[i].data.subrange(offset, offset + size)) as u32, m)
        },
        None => (0, MemoryView { bad_accesses: m.bad_accesses.insert(address), ..m }),
    }
}

/// A guest write of the low `size` bytes of `value` in the guest byte
/// order; a write to an unmapped address or a read-only region changes no
/// byte and records the address.
pub open spec fn spec_write(m: MemoryView, address: u32, value: u32, size: int) -> MemoryView {
    match spec_find_region(m.regions, address, size) {
        Some(i) => if m.regions[i].read_only {
            MemoryView { bad_accesses: m.bad_accesses.insert(address), ..m }
        } else {
            MemoryView {
                regions: spec_store(m.regions, i, address, spec_value_bytes(m.big_endian, value as nat, size as nat)),
                ..m
            }
        },
        None => MemoryView { bad_accesses: m.bad_accesses.insert(address), ..m },
    }
}

/// Guest memory after copying `data` to `address`: the bytes are stored
/// when one writable region holds them all; otherwise nothing changes and
/// the address is recorded.
pub open spec fn spec_write_bytes(m: MemoryView, address: u32, data: Seq<u8>) -> MemoryView {
    match spec_find_region(m.regions, address, data.len() as int) {
        Some(i) => if m.regions[i].read_only {
            MemoryView { bad_accesses: m.bad_accesses.insert(address), ..m }
        } else {
            MemoryView { regions: spec_store(m.regions, i, address, data), ..m }
        },
        None => MemoryView { bad_accesses: m.bad_accesses.insert(address), ..m },
    }
}

/// Guest memory made of mapped regions.
pub struct MachineMemory {
    regions: Vec<Region>,
    bad_accesses: BTreeSet<u32>,
    big_endian: bool,
}

impl View for MachineMemory {
    type V = MemoryView;

    closed spec fn view(&self) -> MemoryView {
        MemoryView {
            regions: self.regions@.map_values(|r: Region| r@),
            bad_accesses: self.bad_accesses@,
            big_endian: self.big_endian,
        }
    }
}

proof fn lemma_le_value_bound(bytes: Seq<u8>)
    ensures
        spec_le_value(bytes) < spec_pow256(bytes.len()),
    decreases bytes.len(),
{
    if bytes.len() > 0 {
        lemma_le_value_bound(bytes.drop_first());
        let rest = spec_le_value(bytes.drop_first());
        let p = spec_pow256(bytes.drop_first().len());
        assert((bytes[0] as nat) + 256 * rest < 256 * p) by (nonlinear_arith)
            requires
                rest < p,
                bytes[0] < 256,
        ;
    }
}

proof fn lemma_be_value_bound(bytes: Seq<u8>)
    ensures
        spec_be_value(bytes) < spec_pow256(bytes.len()),
    decreases bytes.len(),
{
    if bytes.len() > 0 {
        lemma_be_value_bound(bytes.drop_last());
        let rest = spec_be_value(bytes.drop_last());
        let p = spec_pow256(bytes.drop_last().len());
        assert(rest * 256 + (bytes.last() as nat) < 256 * p) by (nonlinear_arith)
            requires
                rest < p,
                bytes.last() < 256,
        ;
    }
}

proof fn lemma_pow256_le_4(n: nat)
    requires
        n <= 4,
    ensures
        spec_pow256(n) <= 0x1_0000_0000,
        spec_pow256(n) > 0,
{
    reveal_with_fuel(spec_pow256, 5);
}

/// The bytes of a value read back give the value, cut to the size.
pub proof fn lemma_le_round_trip(v: nat, n: nat)
    ensures
        spec_le_bytes(v, n).len() == n,
        spec_le_value(spec_le_bytes(v, n)) == v % spec_pow256(n),
    decreases n,
{
    if n > 0 {
        lemma_le_round_trip(v / 256, (n - 1) as nat);
        let b = spec_le_bytes(v, n);
        assert(b.drop_first() =~= spec_le_bytes(v / 256, (n - 1) as nat));
        let p = spec_pow256((n - 1) as nat);
        lemma_pow256_positive((n - 1) as nat);
        lemma_mod_breakdown(v as int, 256, p as int);
    }
}

/// The big-endian bytes of a value read back give the value, cut to the
/// size.
pub proof fn lemma_be_round_trip(v: nat, n: nat)
    ensures
        spec_be_bytes(v, n).len() == n,
        spec_be_value(spec_be_bytes(v, n)) == v % spec_pow256(n),
    decreases n,
{
    if n > 0 {
        lemma_be_round_trip(v / 256, (n - 1) as nat);
        let b = spec_be_bytes(v, n);
        assert(b.drop_last() =~= spec_be_bytes(v / 256, (n - 1) as nat));
        let p = spec_pow256((n - 1) as nat);
        lemma_pow256_positive((n - 1) as nat);
        lemma_mod_breakdown(v as int, 256, p as int);
    }
}

proof fn lemma_pow256_positive(n: nat)
    ensures
        spec_pow256(n) > 0,
    decreases n,
{
    if n > 0 {
        lemma_pow256_positive((n - 1) as nat);
    }
}

impl MachineMemory {
    /// Memory with no regions, in the given byte order.
    pub fn new(big_endian: bool) -> (res: Self)
        ensures
            res@.regions == Seq::<RegionView>::empty(),
            res@.bad_accesses == Set::<u32>::empty(),
            res@.big_endian == big_endian,
    {
        let res = MachineMemory { regions: Vec::new(), bad_accesses: BTreeSet::new(), big_endian };
        assert(res@.regions =~= Seq::<RegionView>::empty());
        res
    }

    /// Map a zero-filled region of `size` bytes at `base`.
    pub fn map(&mut self, base: u32, size: usize, read_only: bool)
        ensures
            final(self)@ == (MemoryView {
                regions: old(self)@.regions.push(
                    RegionView { base, data: Seq::new(size as nat, |i: int| 0u8), read_only },
                ),
                ..old(self)@
            }),
    {
        let data = vec_of_zeros(size);
        let ghost prev = self.regions@;
        self.regions.push(Region { base, data, read_only });
        assert(self.regions@.map_values(|r: Region| r@) =~= prev.map_values(|r: Region| r@).push(
            RegionView { base, data: Seq::new(size as nat, |i: int| 0u8), read_only },
        ));
    }

    /// Index of the first region holding `size` bytes at `address`.
    fn find_region(&self, address: u32, size: usize) -> (res: Option<usize>)
        ensures
            match res {
                Some(i) => spec_find_region(self@.regions, address, size as int) == Some(i as int) && i
                    < self.regions@.len(),
                None => spec_find_region(self@.regions, address, size as int) is None,
            },
    {
        let ghost rv = self@.regions;
        let mut k: usize = 0;
        while k < self.regions.len()
            invariant
                rv == self@.regions,
                k <= self.regions@.len(),
                spec_find_region(rv, address, size as int) == spec_find_region_from(rv, address, size as int, k as int),
            decreases self.regions@.len() - k,
        {
            let region = &self.regions[k];
            assert(rv[k as int] == region@);
            if address >= region.base && ((address - region.base) as usize) <= region.data.len() && size
                <= region.data.len() - ((address - region.base) as usize) {
                return Some(k);
            }
            k = k + 1;
        }
        None
    }

    /// The first region holding `size` bytes at `address`.
    pub fn region(&self, address: u32, size: usize) -> (res: Option<&Region>)
        ensures
            match res {
                Some(r) => spec_find_region(self@.regions, address, size as int) matches Some(i)
                    && r@ == self@.regions[i],
                None => spec_find_region(self@.regions, address, size as int) is None,
            },
    {
        match self.find_region(address, size) {
            Some(i) => Some(&self.regions[i]),
            None => None,
        }
    }

    /// Copy `data` into guest memory at `address`, read-only regions
    /// included (loading is how their contents get there).
    pub fn load(&mut self, address: u32, data: &[u8]) -> (res: Result<(), MemoryError>)
        ensures
            match spec_find_region(old(self)@.regions, address, data@.len() as int) {
                Some(i) => res is Ok && final(self)@ == (MemoryView {
                    regions: spec_store(old(self)@.regions, i, address, data@),
                    ..old(self)@
                }),
                None => res == Err::<(), MemoryError>(MemoryError::NotMapped) && final(self)@ == old(self)@,
            },
    {
        match self.find_region(address, data.len()) {
            Some(i) => {
                self.store(i, address, data);
                Ok(())
            },
            None => Err(MemoryError::NotMapped),
        }
    }

    /// Copy `data` into writable guest memory at `address`; an unmapped
    /// address or a read-only region is refused and recorded.
    pub fn write_bytes(&mut self, address: u32, data: &[u8]) -> (res: bool)
        ensures
            final(self)@ == spec_write_bytes(old(self)@, address, data@),
            match spec_find_region(old(self)@.regions, address, data@.len() as int) {
                Some(i) => if old(self)@.regions[i].read_only {
                    !res && final(self)@ == (MemoryView {
                        bad_accesses: old(self)@.bad_accesses.insert(address),
                        ..old(self)@
                    })
                } else {
                    res && final(self)@ == (MemoryView {
                        regions: spec_store(old(self)@.regions, i, address, data@),
                        ..old(self)@
                    })
                },
                None => !res && final(self)@ == (MemoryView {
                    bad_accesses: old(self)@.bad_accesses.insert(address),
                    ..old(self)@
                }),
            },
    {
        match self.find_region(address, data.len()) {
            Some(i) => {
                if self.regions[i].read_only {
                    self.record_bad_access(address);
                    false
                } else {
                    self.store(i, address, data);
                    true
                }
            },
            None => {
                self.record_bad_access(address);
                false
            },
        }
    }

    fn record_bad_access(&mut self, address: u32)
        ensures
            final(self)@ == (MemoryView { bad_accesses: old(self)@.bad_accesses.insert(address), ..old(self)@ }),
    {
        self.bad_accesses.insert(address);
        assert(self@.regions =~= old(self)@.regions);
    }

    /// Overwrite bytes of region `i` at `address`.
    fn store(&mut self, i: usize, address: u32, data: &[u8])
        requires
            spec_find_region(old(self)@.regions, address, data@.len() as int) == Some(i as int),
        ensures
            final(self)@ == (MemoryView {
                regions: spec_store(old(self)@.regions, i as int, address, data@),
                ..old(self)@
            }),
    {
        proof {
            lemma_find_region_fits(old(self)@.regions, address, data@.len() as int, 0);
        }
        let offset = (address - self.regions[i].base) as usize;
        let ghost old_regions = self.regions@;
        let mut region_data = Vec::new();
        std::mem::swap(&mut region_data, &mut self.regions[i].data);
        let ghost before = region_data@;
        let mut k: usize = 0;
        while k < data.len()
            invariant
                offset + data@.len() <= region_data.len(),
                region_data@.len() == before.len(),
                k <= data@.len(),
                forall|j: int| 0 <= j < before.len() ==> #[trigger] region_data@[j] == if offset <= j < offset + k {
                    data@[j - offset]
                } else {
                    before[j]
                },
            decreases data@.len() - k,
        {
            region_data.set(offset + k, data[k]);
            k = k + 1;
        }
        std::mem::swap(&mut region_data, &mut self.regions[i].data);
        proof {
            let stored = spec_store(old(self)@.regions, i as int, address, data@);
            assert(self.regions@[i as int].data@ =~= stored[i as int].data);
            assert(self@.regions =~= stored);
        }
    }

    /// Read `size` bytes at `address` as a value in the guest byte order;
    /// an unmapped address reads 0 and is recorded.
    pub fn read(&mut self, address: u32, size: usize) -> (res: u32)
        requires
            size <= 4,
        ensures
            (res, final(self)@) == spec_read(old(self)@, address, size as int),
    {
        match self.find_region(address, size) {
            Some(i) => {
                proof {
                    lemma_find_region_fits(self@.regions, address, size as int, 0);
                }
                let offset = (address - self.regions[i].base) as usize;
                let value = bytes_value(self.big_endian, &self.regions[i].data, offset, size);
                value
            },
            None => {
                self.record_bad_access(address);
                0
            },
        }
    }

    /// Write the low `size` bytes of `value` at `address` in the guest byte
    /// order; an unmapped address or a read-only region is refused and
    /// recorded.
    pub fn write(&mut self, address: u32, value: u32, size: usize)
        requires
            size <= 4,
        ensures
            final(self)@ == spec_write(old(self)@, address, value, size as int),
    {
        match self.find_region(address, size) {
            Some(i) => {
                if self.regions[i].read_only {
                    self.record_bad_access(address);
                } else {
                    let bytes = value_bytes(self.big_endian, value, size);
                    self.store(i, address, bytes.as_slice());
                }
            },
            None => {
                self.record_bad_access(address);
            },
        }
    }

    /// Read one byte.
    pub fn r8(&mut self, address: u32) -> (res: u8)
        ensures
            (res as u32, final(self)@) == spec_read(old(self)@, address, 1),
    {
        let v = self.read(address, 1);
        proof {
            lemma_read_bound(old(self)@, address, 1);
        }
        v as u8
    }

    /// Read a halfword.
    pub fn r16(&mut self, address: u32) -> (res: u16)
        ensures
            (res as u32, final(self)@) == spec_read(old(self)@, address, 2),
    {
        let v = self.read(address, 2);
        proof {
            lemma_read_bound(old(self)@, address, 2);
        }
        v as u16
    }

    /// Read a word.
    pub fn r32(&mut self, address: u32) -> (res: u32)
        ensures
            (res, final(self)@) == spec_read(old(self)@, address, 4),
    {
        self.read(address, 4)
    }

    /// Write one byte.
    pub fn w8(&mut self, address: u32, value: u8)
        ensures
            final(self)@ == spec_write(old(self)@, address, value as u32, 1),
    {
        self.write(address, value as u32, 1)
    }

    /// Write a halfword.
    pub fn w16(&mut self, address: u32, value: u16)
        ensures
            final(self)@ == spec_write(old(self)@, address, value as u32, 2),
    {
        self.write(address, value as u32, 2)
    }

    /// Write a word.
    pub fn w32(&mut self, address: u32, value: u32)
        ensures
            final(self)@ == spec_write(old(self)@, address, value, 4),
    {
        self.write(address, value, 4)
    }

    /// Snapshot of the mapped regions.
    pub fn region_infos(&self) -> (res: Vec<MemoryRegionInfo>)
        ensures
            res@.len() == self@.regions.len(),
            forall|i: int| 0 <= i < res@.len() ==> #[trigger] res@[i] == (MemoryRegionInfo {
                base: self@.regions[i].base,
                size: self@.regions[i].data.len() as usize,
                read_only: self@.regions[i].read_only,
            }),
    {
        let mut out: Vec<MemoryRegionInfo> = Vec::new();
        let mut k: usize = 0;
        while k < self.regions.len()
            invariant
                k <= self.regions@.len(),
                out@.len() == k,
                forall|i: int| 0 <= i < k ==> #[trigger] out@[i] == (MemoryRegionInfo {
                    base: self@.regions[i].base,
                    size: self@.regions[i].data.len() as usize,
                    read_only: self@.regions[i].read_only,
                }),
            decreases self.regions@.len() - k,
        {
            let r = &self.regions[k];
            out.push(MemoryRegionInfo { base: r.base, size: r.data.len(), read_only: r.read_only });
            k = k + 1;
        }
        out
    }

    /// The addresses of rejected accesses.
    pub fn bad_accesses(&self) -> (res: &BTreeSet<u32>)
        ensures
            res@ == self@.bad_accesses,
    {
        &self.bad_accesses
    }

    /// Whether the guest is big-endian.
    pub fn is_big_endian(&self) -> (res: bool)
        ensures
            res == self@.big_endian,
    {
        self.big_endian
    }
}

proof fn lemma_find_region_fits(regions: Seq<RegionView>, address: u32, size: int, k: int)
    requires
        0 <= k,
        spec_find_region_from(regions, address, size, k) is Some,
    ensures
        spec_find_region_from(regions, address, size, k) matches Some(i) && k <= i < regions.len()
            && spec_region_fits(regions[i], address, size),
    decreases regions.len() - k,
{
    if k < regions.len() && !spec_region_fits(regions[k], address, size) {
        lemma_find_region_fits(regions, address, size, k + 1);
    }
}

proof fn lemma_read_bound(m: MemoryView, address: u32, size: nat)
    requires
        size <= 4,
    ensures
        spec_read(m, address, size as int).0 < spec_pow256(size),
        size == 1 ==> spec_read(m, address, size as int).0 < 0x100,
        size == 2 ==> spec_read(m, address, size as int).0 < 0x1_0000,
{
    lemma_pow256_le_4(size);
    reveal_with_fuel(spec_pow256, 3);
    if let Some(i) = spec_find_region(m.regions, address, size as int) {
        lemma_find_region_fits(m.regions, address, size as int, 0);
        let offset = address - m.regions[i].base;
        let bytes = m.regions[i].data.subrange(offset, offset + size);
        lemma_le_value_bound(bytes);
        lemma_be_value_bound(bytes);
    }
}

/// A zero-filled vector.
fn vec_of_zeros(size: usize) -> (res: Vec<u8>)
    ensures
        res@ == Seq::new(size as nat, |i: int| 0u8),
{
    let mut v: Vec<u8> = Vec::new();
    let mut k: usize = 0;
    while k < size
        invariant
            k <= size,
            v@ =~= Seq::new(k as nat, |i: int| 0u8),
        decreases size - k,
    {
        v.push(0);
        k = k + 1;
    }
    v
}

/// Value of `size` bytes at `offset` in the given byte order.
fn bytes_value(big_endian: bool, data: &Vec<u8>, offset: usize, size: usize) -> (res: u32)
    requires
        size <= 4,
        offset + size <= data@.len(),
    ensures
        res as nat == spec_bytes_value(big_endian, data@.subrange(offset as int, offset + size)),
{
    let ghost bytes = data@.subrange(offset as int, offset + size);
    proof {
        lemma_pow256_le_4(size as nat);
    }
    if big_endian {
        let mut value: u64 = 0;
        let mut k: usize = 0;
        while k < size
            invariant
                size <= 4,
                offset + size <= data.len(),
                bytes == data@.subrange(offset as int, offset + size),
                k <= size,
                value == spec_be_value(bytes.subrange(0, k as int)),
            decreases size - k,
        {
            proof {
                assert(bytes.subrange(0, k + 1).drop_last() =~= bytes.subrange(0, k as int));
                lemma_be_value_bound(bytes.subrange(0, k as int));
                lemma_pow256_le_4(k as nat);
            }
            value = value * 256 + data[offset + k] as u64;
            k = k + 1;
        }
        proof {
            assert(bytes.subrange(0, size as int) =~= bytes);
            lemma_be_value_bound(bytes);
        }
        value as u32
    } else {
        let mut value: u64 = 0;
        let mut k: usize = size;
        while k > 0
            invariant
                size <= 4,
                offset + size <= data.len(),
                bytes == data@.subrange(offset as int, offset + size),
                k <= size,
                value == spec_le_value(bytes.subrange(k as int, size as int)),
            decreases k,
        {
            proof {
                assert(bytes.subrange(k - 1, size as int).drop_first() =~= bytes.subrange(k as int, size as int));
                lemma_le_value_bound(bytes.subrange(k as int, size as int));
                lemma_pow256_le_4((size - k) as nat);
            }
            value = value * 256 + data[offset + k - 1] as u64;
            k = k - 1;
        }
        proof {
            assert(bytes.subrange(0, size as int) =~= bytes);
            lemma_le_value_bound(bytes);
        }
        value as u32
    }
}

/// The low `size` bytes of `value` in the given byte order.
fn value_bytes(big_endian: bool, value: u32, size: usize) -> (res: Vec<u8>)
    requires
        size <= 4,
    ensures
        res@ == spec_value_bytes(big_endian, value as nat, size as nat),
        res@.len() == size,
{
    proof {
        lemma_le_round_trip(value as nat, size as nat);
        lemma_be_round_trip(value as nat, size as nat);
    }
    let mut rest: u32 = value;
    if big_endian {
        let mut out = vec_of_zeros(size);
        let mut k: usize = size;
        assert(out@.subrange(size as int, size as int) =~= Seq::<u8>::empty());
        assert(spec_be_bytes(value as nat, size as nat) + Seq::<u8>::empty() =~= spec_be_bytes(value as nat, size as nat));
        while k > 0
            invariant
                k <= size,
                out@.len() == size,
                spec_be_bytes(rest as nat, k as nat) + out@.subrange(k as int, size as int) == spec_be_bytes(
                    value as nat,
                    size as nat,
                ),
            decreases k,
        {
            let ghost r = rest as nat;
            let ghost prev = out@.subrange(k as int, size as int);
            assert(spec_be_bytes(r, k as nat) == spec_be_bytes(r / 256, (k - 1) as nat) + seq![(r % 256) as u8]);
            out.set(k - 1, (rest % 256) as u8);
            assert(out@.subrange(k - 1, size as int) =~= seq![(r % 256) as u8] + prev);
            rest = rest / 256;
            k = k - 1;
            assert(spec_be_bytes(rest as nat, k as nat) + out@.subrange(k as int, size as int) =~= spec_be_bytes(
                r,
                (k + 1) as nat,
            ) + prev);
        }
        assert(out@.subrange(0, size as int) =~= out@);
        out
    } else {
        let mut out: Vec<u8> = Vec::new();
        let mut k: usize = 0;
        assert(Seq::<u8>::empty() + spec_le_bytes(value as nat, size as nat) =~= spec_le_bytes(value as nat, size as nat));
        while k < size
            invariant
                k <= size,
                out@ + spec_le_bytes(rest as nat, (size - k) as nat) == spec_le_bytes(value as nat, size as nat),
            decreases size - k,
        {
            let ghost r = rest as nat;
            let ghost m = (size - k) as nat;
            assert(spec_le_bytes(r, m) == seq![(r % 256) as u8] + spec_le_bytes(r / 256, (m - 1) as nat));
            let ghost prev = out@;
            out.push((rest % 256) as u8);
            rest = rest / 256;
            k = k + 1;
            assert(out@ + spec_le_bytes(rest as nat, (size - k) as nat) =~= prev + spec_le_bytes(r, m));
        }
        assert(out@ + spec_le_bytes(rest as nat, 0) =~= out@);
        out
    }
}

/// Two region lists with the same bases and sizes.
pub open spec fn spec_same_layout(a: Seq<RegionView>, b: Seq<RegionView>) -> bool {
    &&& a.len() == b.len()
    &&& forall|k: int| 0 <= k < a.len() ==> #[trigger] a[k].base == b[k].base && a[k].data.len() == b[k].data.len()
}

proof fn lemma_same_layout_find(a: Seq<RegionView>, b: Seq<RegionView>, address: u32, size: int, k: int)
    requires
        spec_same_layout(a, b),
    ensures
        spec_find_region_from(a, address, size, k) == spec_find_region_from(b, address, size, k),
    decreases a.len() - k,
{
    if 0 <= k < a.len() {
        assert(a[k].base == b[k].base && a[k].data.len() == b[k].data.len());
        lemma_same_layout_find(a, b, address, size, k + 1);
    }
}

/// A write never maps, unmaps or resizes a region, and never changes the
/// byte order.
pub proof fn lemma_write_keeps_layout(m: MemoryView, address: u32, value: u32, size: int)
    requires
        0 <= size <= 4,
    ensures
        spec_same_layout(m.regions, spec_write(m, address, value, size).regions),
        spec_write(m, address, value, size).big_endian == m.big_endian,
{
    if let Some(i) = spec_find_region(m.regions, address, size) {
        lemma_find_region_fits(m.regions, address, size, 0);
        lemma_le_round_trip(value as nat, size as nat);
        lemma_be_round_trip(value as nat, size as nat);
    }
}

/// Reading back what was just written to writable memory gives the value
/// cut to the access size, in either byte order.
pub proof fn lemma_read_after_write(m: MemoryView, address: u32, value: u32, size: int)
    requires
        0 <= size <= 4,
        spec_find_region(m.regions, address, size) matches Some(i) && !m.regions[i].read_only,
    ensures
        spec_read(spec_write(m, address, value, size), address, size).0 == value as nat % spec_pow256(size as nat),
{
    let i = spec_find_region(m.regions, address, size).unwrap();
    lemma_find_region_fits(m.regions, address, size, 0);
    lemma_write_keeps_layout(m, address, value, size);
    let w = spec_write(m, address, value, size);
    lemma_same_layout_find(m.regions, w.regions, address, size, 0);
    let bytes = spec_value_bytes(m.big_endian, value as nat, size as nat);
    lemma_le_round_trip(value as nat, size as nat);
    lemma_be_round_trip(value as nat, size as nat);
    let offset = address - m.regions[i].base;
    assert(w.regions[i].data.subrange(offset, offset + size) =~= bytes);
    lemma_pow256_positive(size as nat);
    lemma_pow256_le_4(size as nat);
    let p = spec_pow256(size as nat);
    assert(spec_bytes_value(m.big_endian, bytes) == value as nat % p);
    assert(value as nat % p < p);
    assert(spec_read(w, address, size).0 == spec_bytes_value(m.big_endian, bytes) as u32);
}

/// A write to memory that no region holds, or to a read-only region,
/// changes no byte and records the address.
pub proof fn lemma_refused_write_changes_nothing(m: MemoryView, address: u32, value: u32, size: int)
    requires
        spec_find_region(m.regions, address, size) matches Some(i) ==> m.regions[i].read_only,
    ensures
        spec_write(m, address, value, size).regions == m.regions,
        spec_write(m, address, value, size).bad_accesses == m.bad_accesses.insert(address),
{
}

/// A read never changes a byte of memory.
pub proof fn lemma_read_keeps_contents(m: MemoryView, address: u32, size: int)
    ensures
        spec_read(m, address, size).1.regions == m.regions,
        spec_read(m, address, size).1.big_endian == m.big_endian,
{
}

} // verus!
