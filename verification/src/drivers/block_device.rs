//! Common abstraction over physical block-storage backends.

use vstd::prelude::*;

verus! {

/// A device that reads and writes sectors.
pub trait BlockDevice {
    fn read(&mut self, buffer_address: usize, block_address: u64, length: u64) -> Result<(), ()>;

    fn write(&mut self, buffer_address: usize, block_address: u64, length: u64) -> Result<(), ()>;
}

} // verus!
