pub mod port_range;
pub mod port_range_allocator;
