use vstd::prelude::*;

verus! {

/// The ports a slot may bind: `count` ports starting at `base`.
pub struct PortRange {
    pub base: u16,
    pub count: u16,
}

/// The last port of a range of `count` ports from `base`: the port before
/// `base + count`, never below `base` and never past the top of the port space.
pub open spec fn last_port(base: u16, count: u16) -> int {
    if count == 0 {
        base as int
    } else if base + count - 1 > u16::MAX {
        u16::MAX as int
    } else {
        base + count - 1
    }
}

impl PortRange {
    /// The last port in the range, inclusive.
    pub fn end(&self) -> (last: u16)
        ensures
            last == last_port(self.base, self.count),
            self.base <= last,
    {
        self.base.saturating_add(self.count.saturating_sub(1))
    }
}

} // verus!
