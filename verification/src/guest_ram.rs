//! The memory of a guest.

use vstd::prelude::*;

verus! {

/// The memory of a guest: `bytes` are at `virtual_base` and on for the guest, and at
/// `physical_base` and on for the hypervisor.
pub struct GuestRam<'a> {
    pub virtual_base: u64,
    pub physical_base: u64,
    pub bytes: &'a mut [u8],
}

/// The memory of a guest.
#[verifier::ext_equal]
pub struct Ram {
    pub virtual_base: u64,
    pub physical_base: u64,
    pub bytes: Seq<u8>,
}

impl Ram {
    /// Both windows end inside the address space.
    pub open spec fn valid(self) -> bool {
        &&& self.virtual_base + self.bytes.len() <= u64::MAX
        &&& self.physical_base + self.bytes.len() <= u64::MAX
    }

    /// The hypervisor's address of what the guest has at `virtual_address`.
    pub open spec fn physical_address(self, virtual_address: u64) -> Option<u64> {
        if self.virtual_base <= virtual_address < self.virtual_base + self.bytes.len() {
            Some((virtual_address - self.virtual_base + self.physical_base) as u64)
        } else {
            None
        }
    }

    /// The `n` bytes at `address` are the guest's.
    pub open spec fn holds(self, address: int, n: int) -> bool {
        self.physical_base <= address && address + n <= self.physical_base + self.bytes.len()
    }

    /// The number, least significant byte first, in the `n` bytes at `address`.
    pub open spec fn number(self, address: int, n: nat) -> int
        decreases n,
    {
        if n == 0 {
            0
        } else {
            self.bytes[address - self.physical_base] + 256 * self.number(
                address + 1,
                (n - 1) as nat,
            )
        }
    }

    /// The memory once the `n` bytes at `address` hold the number `value`.
    pub open spec fn stored(self, address: int, n: nat, value: int) -> Ram
        decreases n,
    {
        if n == 0 {
            self
        } else {
            (Ram {
                bytes: self.bytes.update(address - self.physical_base, (value % 256) as u8),
                ..self
            }).stored(address + 1, (n - 1) as nat, value / 256)
        }
    }

    /// The memory once `data` is at `address`.
    pub open spec fn copied(self, address: int, data: Seq<u8>) -> Ram {
        let i = address - self.physical_base;
        Ram {
            bytes: Seq::new(
                self.bytes.len(),
                |j: int|
                    if i <= j < i + data.len() {
                        data[j - i]
                    } else {
                        self.bytes[j]
                    },
            ),
            ..self
        }
    }
}

/// 256 to the power of `n`.
pub open spec fn byte_range(n: nat) -> int
    decreases n,
{
    if n == 0 {
        1
    } else {
        256 * byte_range((n - 1) as nat)
    }
}

impl<'a> GuestRam<'a> {
    pub open spec fn view(&self) -> Ram {
        Ram {
            virtual_base: self.virtual_base,
            physical_base: self.physical_base,
            bytes: self.bytes@,
        }
    }

    /// The hypervisor's address of what the guest has at `virtual_address`. `None` where that is
    /// not memory.
    pub fn get_physical_address(&self, virtual_address: u64) -> (address: Option<u64>)
        requires
            self@.valid(),
        ensures
            address == self@.physical_address(virtual_address),
    {
        if virtual_address >= self.virtual_base && virtual_address - self.virtual_base
            < self.bytes.len() as u64 {
            Some(virtual_address - self.virtual_base + self.physical_base)
        } else {
            None
        }
    }

    /// Whether the `n` bytes at `address` are the guest's.
    pub fn contains(&self, address: u64, n: u64) -> (contained: bool)
        requires
            self@.valid(),
        ensures
            contained == self@.holds(address as int, n as int),
    {
        address >= self.physical_base && n <= self.bytes.len() as u64 && address
            - self.physical_base <= self.bytes.len() as u64 - n
    }

    /// The number in the `n` bytes at `address`.
    pub fn read_number(&self, address: u64, n: u64) -> (value: u64)
        requires
            self@.valid(),
            n <= 8,
            self@.holds(address as int, n as int),
        ensures
            value == self@.number(address as int, n as nat),
            value < byte_range(n as nat),
    {
        proof {
            lemma_byte_ranges();
        }
        let mut value: u64 = 0;
        let mut i: u64 = n;
        while i > 0
            invariant
                self@.valid(),
                n <= 8,
                self@.holds(address as int, n as int),
                0 <= i <= n,
                value == self@.number(address + i, (n - i) as nat),
                value < byte_range((n - i) as nat),
            decreases i,
        {
            proof {
                lemma_byte_ranges();
                assert(byte_range((n - i + 1) as nat) == 256 * byte_range((n - i) as nat));
            }
            i = i - 1;
            value = self.bytes[(address - self.physical_base + i) as usize] as u64 + 256 * value;
        }
        value
    }

    /// Stores `value` in the `n` bytes at `address`.
    pub fn write_number(&mut self, address: u64, n: u64, value: u64)
        requires
            old(self)@.valid(),
            old(self)@.holds(address as int, n as int),
        ensures
            final(self)@ == old(self)@.stored(address as int, n as nat, value as int),
            final(self)@.bytes.len() == old(self)@.bytes.len(),
            final(self)@.physical_base == old(self)@.physical_base,
            final(self)@.virtual_base == old(self)@.virtual_base,
    {
        let mut i: u64 = 0;
        let mut rest: u64 = value;
        while i < n
            invariant
                0 <= i <= n,
                self@.valid(),
                self@.holds(address as int, n as int),
                self@.bytes.len() == old(self)@.bytes.len(),
                self@.physical_base == old(self)@.physical_base,
                self@.virtual_base == old(self)@.virtual_base,
                old(self)@.stored(address as int, n as nat, value as int) == self@.stored(
                    address + i,
                    (n - i) as nat,
                    rest as int,
                ),
            decreases n - i,
        {
            let ghost before = self@;
            self.bytes[(address - self.physical_base + i) as usize] = (rest % 256) as u8;
            assert(self@ =~= (Ram {
                bytes: before.bytes.update(
                    address + i - before.physical_base,
                    (rest as int % 256) as u8,
                ),
                ..before
            }));
            rest = rest / 256;
            i = i + 1;
        }
    }

    /// Puts `data` at `address`.
    pub fn write_bytes(&mut self, address: u64, data: &[u8])
        requires
            old(self)@.valid(),
            old(self)@.holds(address as int, data@.len() as int),
        ensures
            final(self)@ == old(self)@.copied(address as int, data@),
    {
        let size: usize = self.bytes.len();
        let start: usize = (address - self.physical_base) as usize;
        let ghost before = self@;
        let mut i: usize = 0;
        while i < data.len()
            invariant
                0 <= i <= data@.len(),
                start == address - before.physical_base,
                start + data@.len() <= before.bytes.len(),
                before.bytes.len() == size,
                self@.bytes.len() == before.bytes.len(),
                self@.virtual_base == before.virtual_base,
                self@.physical_base == before.physical_base,
                forall|j: int|
                    0 <= j < before.bytes.len() ==> #[trigger] self@.bytes[j] == if start <= j
                        < start + i {
                        data@[j - start]
                    } else {
                        before.bytes[j]
                    },
            decreases data@.len() - i,
        {
            self.bytes[start + i] = data[i];
            i = i + 1;
        }
        assert(self@ =~= before.copied(address as int, data@));
    }

    /// The `n` bytes at `address`.
    pub fn read_bytes(&self, address: u64, n: u64) -> (data: Vec<u8>)
        requires
            self@.valid(),
            self@.holds(address as int, n as int),
        ensures
            data@ == self@.bytes.subrange(
                address - self@.physical_base,
                address - self@.physical_base + n,
            ),
    {
        let size: usize = self.bytes.len();
        let start: usize = (address - self.physical_base) as usize;
        let mut data: Vec<u8> = Vec::new();
        let mut i: usize = 0;
        while i < n as usize
            invariant
                0 <= i <= n,
                n <= usize::MAX,
                start == address - self@.physical_base,
                start + n <= self@.bytes.len(),
                self@.bytes.len() == size,
                data@ == self@.bytes.subrange(start as int, start + i),
            decreases n - i,
        {
            data.push(self.bytes[start + i]);
            i = i + 1;
            assert(data@ =~= self@.bytes.subrange(start as int, start + i));
        }
        data
    }
}

/// How far one to eight bytes count.
pub proof fn lemma_byte_ranges()
    ensures
        byte_range(0) == 1,
        byte_range(1) == 0x100,
        byte_range(2) == 0x1_0000,
        byte_range(3) == 0x100_0000,
        byte_range(4) == 0x1_0000_0000,
        byte_range(5) == 0x100_0000_0000,
        byte_range(6) == 0x1_0000_0000_0000,
        byte_range(7) == 0x100_0000_0000_0000,
        byte_range(8) == 0x1_0000_0000_0000_0000,
{
    reveal_with_fuel(byte_range, 9);
}

/// Storing a number leaves every byte outside of it.
pub proof fn lemma_stored_frame(ram: Ram, address: int, n: nat, value: int)
    requires
        ram.holds(address, n as int),
    ensures
        ({
            let after = ram.stored(address, n, value);
            &&& after.bytes.len() == ram.bytes.len()
            &&& after.physical_base == ram.physical_base
            &&& after.virtual_base == ram.virtual_base
            &&& forall|j: int|
                0 <= j < ram.bytes.len() && !(address <= j + ram.physical_base < address + n)
                    ==> #[trigger] after.bytes[j] == ram.bytes[j]
        }),
    decreases n,
{
    if n > 0 {
        let next = Ram {
            bytes: ram.bytes.update(address - ram.physical_base, (value % 256) as u8),
            ..ram
        };
        lemma_stored_frame(next, address + 1, (n - 1) as nat, value / 256);
    }
}

/// A number that was stored reads back, where it fits in its bytes.
pub proof fn stored_number_reads_back(ram: Ram, address: int, n: nat, value: int)
    requires
        ram.holds(address, n as int),
        0 <= value < byte_range(n),
    ensures
        ram.stored(address, n, value).number(address, n) == value,
    decreases n,
{
    if n > 0 {
        let next = Ram {
            bytes: ram.bytes.update(address - ram.physical_base, (value % 256) as u8),
            ..ram
        };
        stored_number_reads_back(next, address + 1, (n - 1) as nat, value / 256);
        lemma_stored_frame(next, address + 1, (n - 1) as nat, value / 256);
    }
}

} // verus!
