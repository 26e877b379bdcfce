//! The physical block storage that was found at boot.
//!
//! What reads and writes files need not know which of the drivers is in use.

use crate::device::RegisterOp;
use crate::drivers::sdhci::{Operation, Sdhci};
use crate::drivers::usb_mass_storage::{BlockRequest, UsbMassStorage};
use vstd::prelude::*;

verus! {

pub enum BlockBackend {
    Invalid,
    /// A Virtio device with its registers at this address.
    Virtio(u64),
    Sdhci(Sdhci),
    Usb(UsbMassStorage),
}

/// What a driver has to do for a transfer.
#[derive(Clone, Copy, PartialEq, Eq, Debug, Structural)]
pub enum BlockPlan {
    Virtio { base_address: u64, buffer_address: u64, block_address: u64, length: u64 },
    /// There is nothing to do where the transfer is empty.
    Sdhci(Option<Operation>),
    Usb(BlockRequest),
}

impl BlockBackend {
    pub open spec fn wf(&self) -> bool {
        match self {
            BlockBackend::Sdhci(sdhci) => sdhci.wf(),
            BlockBackend::Usb(usb) => usb.wf(),
            _ => true,
        }
    }

    /// The backend after a transfer was planned, and the plan.
    pub open spec fn planned(
        self,
        buffer_address: u64,
        block_address: u64,
        length: u64,
        is_write: bool,
    ) -> (BlockBackend, Result<BlockPlan, ()>, Seq<RegisterOp>) {
        match self {
            BlockBackend::Invalid => (self, Err(()), Seq::empty()),
            BlockBackend::Virtio(base_address) => (
                self,
                Ok(BlockPlan::Virtio { base_address, buffer_address, block_address, length }),
                Seq::empty(),
            ),
            BlockBackend::Sdhci(sdhci) => {
                let (after, result, ops) = sdhci.planned(block_address, length, is_write);
                (
                    BlockBackend::Sdhci(after),
                    match result {
                        Ok(operation) => Ok(BlockPlan::Sdhci(operation)),
                        Err(()) => Err(()),
                    },
                    ops,
                )
            },
            BlockBackend::Usb(usb) => (
                self,
                match usb.requested(buffer_address, block_address, length, is_write) {
                    Some(request) => Ok(BlockPlan::Usb(request)),
                    None => Err(()),
                },
                Seq::empty(),
            ),
        }
    }

    pub fn invalid() -> (backend: Self)
        ensures
            backend == Self::Invalid,
            backend.wf(),
    {
        Self::Invalid
    }

    /// The backend that is used: a Virtio device before an SDHCI controller, and that before USB
    /// storage. `None` where there is none of them.
    pub fn select(virtio: Option<u64>, sdhci: Option<Sdhci>, usb: Option<UsbMassStorage>) -> (backend:
        Option<Self>)
        ensures
            backend == match (virtio, sdhci, usb) {
                (Some(base_address), _, _) => Some(BlockBackend::Virtio(base_address)),
                (None, Some(sdhci), _) => Some(BlockBackend::Sdhci(sdhci)),
                (None, None, Some(usb)) => Some(BlockBackend::Usb(usb)),
                (None, None, None) => None,
            },
    {
        match virtio {
            Some(base_address) => Some(Self::Virtio(base_address)),
            None => match sdhci {
                Some(sdhci) => Some(Self::Sdhci(sdhci)),
                None => match usb {
                    Some(usb) => Some(Self::Usb(usb)),
                    None => None,
                },
            },
        }
    }

    /// Plans a read of `length` bytes at the byte `block_address` to `buffer_address`.
    pub fn read(
        &mut self,
        buffer_address: u64,
        block_address: u64,
        length: u64,
        ops: &mut Vec<RegisterOp>,
    ) -> (result: Result<BlockPlan, ()>)
        requires
            old(self).wf(),
            buffer_address + length <= u64::MAX,
        ensures
            final(self).wf(),
            *final(self) == old(self).planned(buffer_address, block_address, length, false).0,
            result == old(self).planned(buffer_address, block_address, length, false).1,
            final(ops)@ == old(ops)@ + old(self).planned(
                buffer_address,
                block_address,
                length,
                false,
            ).2,
    {
        let ghost first = ops@;
        assert(first + Seq::<RegisterOp>::empty() =~= first);
        match self {
            Self::Invalid => Err(()),
            Self::Virtio(base_address) => Ok(
                BlockPlan::Virtio {
                    base_address: *base_address,
                    buffer_address,
                    block_address,
                    length,
                },
            ),
            Self::Sdhci(sdhci) => match sdhci.read(block_address, length, ops) {
                Ok(operation) => Ok(BlockPlan::Sdhci(operation)),
                Err(()) => Err(()),
            },
            Self::Usb(usb) => match usb.read(buffer_address, block_address, length) {
                Ok(request) => Ok(BlockPlan::Usb(request)),
                Err(()) => Err(()),
            },
        }
    }

    /// Plans a write of `length` bytes at `buffer_address` to the byte `block_address`.
    pub fn write(
        &mut self,
        buffer_address: u64,
        block_address: u64,
        length: u64,
        ops: &mut Vec<RegisterOp>,
    ) -> (result: Result<BlockPlan, ()>)
        requires
            old(self).wf(),
            buffer_address + length <= u64::MAX,
        ensures
            final(self).wf(),
            *final(self) == old(self).planned(buffer_address, block_address, length, true).0,
            result == old(self).planned(buffer_address, block_address, length, true).1,
            final(ops)@ == old(ops)@ + old(self).planned(
                buffer_address,
                block_address,
                length,
                true,
            ).2,
    {
        let ghost first = ops@;
        assert(first + Seq::<RegisterOp>::empty() =~= first);
        match self {
            Self::Invalid => Err(()),
            Self::Virtio(base_address) => Ok(
                BlockPlan::Virtio {
                    base_address: *base_address,
                    buffer_address,
                    block_address,
                    length,
                },
            ),
            Self::Sdhci(sdhci) => match sdhci.write(block_address, length, ops) {
                Ok(operation) => Ok(BlockPlan::Sdhci(operation)),
                Err(()) => Err(()),
            },
            Self::Usb(usb) => match usb.write(buffer_address, block_address, length) {
                Ok(request) => Ok(BlockPlan::Usb(request)),
                Err(()) => Err(()),
            },
        }
    }
}

} // verus!
