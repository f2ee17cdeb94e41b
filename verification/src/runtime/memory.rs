use vstd::prelude::*;

verus! {

/// Fixed virtual address used as the base of the guest address space.
///
/// The translated code can therefore turn a guest address into a host address
/// with a single base addition. Linux/x86-64 is the first supported runtime.
pub const HOST_BASE: u64 = 0x0000_4000_0000_0000u64;

/// Why a guest address space could not be reserved.
#[derive(Clone, Copy, Debug, PartialEq, Eq, Structural)]
pub enum MapError {
    /// A mapping of zero bytes was requested.
    ZeroSize,
    /// The kernel placed the mapping somewhere other than `HOST_BASE`.
    NotAtHostBase,
}

/// A reserved guest address space: `size` bytes mapped at host address `base`.
#[derive(Debug)]
pub struct GuestMemory {
    base: usize,
    size: usize,
}

impl GuestMemory {
    pub closed spec fn spec_base(&self) -> usize {
        self.base
    }

    pub closed spec fn spec_size(&self) -> usize {
        self.size
    }

    /// Checks a request to reserve `size` bytes of guest memory.
    pub fn check_request(size: usize) -> (r: Result<(), MapError>)
        ensures
            r == (if size == 0 { Err(MapError::ZeroSize) } else { Ok(()) }),
    {
        if size == 0 {
            Err(MapError::ZeroSize)
        } else {
            Ok(())
        }
    }

    /// The guest memory for a reservation of `size` bytes that the kernel
    /// placed at `mapped_at`; only a mapping at `HOST_BASE` is accepted.
    pub fn from_mapping(mapped_at: usize, size: usize) -> (r: Result<GuestMemory, MapError>)
        ensures
            size == 0 ==> r == Err::<GuestMemory, MapError>(MapError::ZeroSize),
            size != 0 && mapped_at != HOST_BASE ==> r == Err::<GuestMemory, MapError>(MapError::NotAtHostBase),
            size != 0 && mapped_at == HOST_BASE ==> (r matches Ok(m) && m.spec_base() == mapped_at && m.spec_size() == size),
    {
        if size == 0 {
            Err(MapError::ZeroSize)
        } else if mapped_at as u64 != HOST_BASE {
            Err(MapError::NotAtHostBase)
        } else {
            Ok(GuestMemory { base: mapped_at, size })
        }
    }

    pub fn base(&self) -> (r: usize)
        ensures
            r == self.spec_base(),
    {
        self.base
    }

    pub fn size(&self) -> (r: usize)
        ensures
            r == self.spec_size(),
    {
        self.size
    }

    /// The host address of guest address `guest_address`.
    pub fn host_address(&self, guest_address: usize) -> (r: usize)
        requires
            self.spec_base() + guest_address <= usize::MAX,
        ensures
            r == self.spec_base() + guest_address,
    {
        self.base + guest_address
    }

    /// Whether an access of `len` bytes at `guest_address` lies inside the
    /// guest address space.
    pub fn access_in_bounds(&self, guest_address: usize, len: usize) -> (r: bool)
        ensures
            r == (guest_address + len <= self.spec_size()),
    {
        match guest_address.checked_add(len) {
            Some(end) => end <= self.size,
            None => false,
        }
    }
}

} // verus!
