use crate::ports::port_range::PortRange;
use vstd::prelude::*;

verus! {

/// Hands each slot its own window of the port space: slot `i` owns the
/// `range_size` ports from `base_port + i * range_size`.
pub struct PortRangeAllocator {
    base_port: u16,
    range_size: u16,
}

/// The first port of slot `slot`'s range: the slot's offset from `base_port`,
/// held at the top of the port space. The slot index is read as a `u32`, as
/// the allocator computes in 32 bits.
pub open spec fn slot_base(base_port: u16, range_size: u16, slot: usize) -> int {
    let offset = (slot as u32) * range_size;
    if base_port + offset > u16::MAX {
        u16::MAX as int
    } else {
        base_port + offset
    }
}

impl PortRangeAllocator {
    pub closed spec fn first_port(&self) -> u16 {
        self.base_port
    }

    pub closed spec fn ports_per_slot(&self) -> u16 {
        self.range_size
    }

    pub fn new(base_port: u16, range_size: u16) -> (allocator: Self)
        ensures
            allocator.first_port() == base_port,
            allocator.ports_per_slot() == range_size,
    {
        Self { base_port, range_size }
    }

    /// The port range that slot `slot_index` owns.
    pub fn range_for_slot(&self, slot_index: usize) -> (range: PortRange)
        ensures
            range.base == slot_base(self.first_port(), self.ports_per_slot(), slot_index),
            range.count == self.ports_per_slot(),
    {
        let slot = slot_index as u32;
        let offset: u32 = match slot.checked_mul(self.range_size as u32) {
            Some(product) => product,
            None => u32::MAX,
        };
        let sum: u32 = (self.base_port as u32).saturating_add(offset);
        let base: u16 = if sum > 65535 {
            65535
        } else {
            sum as u16
        };
        PortRange { base, count: self.range_size }
    }
}

/// Concurrent slots never share a port: the last port of a lower slot lies
/// below the first port of any higher one, so long as the higher slot's whole
/// range still fits in the port space (past it, ranges are held at the top and
/// can meet).
pub proof fn lemma_slot_ranges_are_disjoint(base_port: u16, range_size: u16, lower: usize, higher: usize)
    requires
        lower < higher <= u32::MAX,
        range_size > 0,
        base_port + (higher + 1) * range_size <= u16::MAX + 1,
    ensures
        crate::ports::port_range::last_port(slot_base(base_port, range_size, lower) as u16, range_size)
            < slot_base(base_port, range_size, higher),
{
    let lo = lower as int;
    let hi = higher as int;
    let size = range_size as int;
    assert((lower as u32) as int == lo && (higher as u32) as int == hi);
    assert(lo * size + size <= hi * size) by (nonlinear_arith)
        requires
            lo < hi,
            size >= 0,
    ;
    assert(hi * size + size == (hi + 1) * size) by (nonlinear_arith);
    assert(0 <= lo * size) by (nonlinear_arith)
        requires
            lo >= 0,
            size >= 0,
    ;
}

} // verus!
