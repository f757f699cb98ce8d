//! Socket addresses.
use vstd::prelude::*;

verus! {

/// How many bytes any socket address fits into.
pub const SOCKADDR_STORAGE_LEN: u32 = 128;

/// Room for any socket address.
#[derive(Debug)]
pub struct AddrStorage {
    /// The bytes.
    pub bytes: Vec<u8>,
}

/// As many zeros as any socket address can have bytes.
pub open spec fn zeroed() -> Seq<u8> {
    Seq::new(SOCKADDR_STORAGE_LEN as nat, |i: int| 0u8)
}

impl AddrStorage {
    /// There are as many bytes as any socket address can have.
    pub open spec fn wf(&self) -> bool {
        self.bytes@.len() == SOCKADDR_STORAGE_LEN
    }

    /// Room in which no address was put yet.
    pub fn new() -> (storage: Self)
        ensures
            storage.wf(),
            storage.bytes@ == zeroed(),
    {
        let mut bytes: Vec<u8> = Vec::with_capacity(128);
        while bytes.len() < 128
            invariant
                bytes.len() <= 128,
                forall|i: int| 0 <= i < bytes.len() ==> #[trigger] bytes@[i] == 0,
            decreases 128 - bytes.len(),
        {
            bytes.push(0);
        }
        assert(bytes@ =~= zeroed());
        AddrStorage { bytes }
    }
}

/// A socket address.
#[derive(Debug)]
pub struct SockAddr {
    /// Where the address stands.
    pub storage: AddrStorage,
    /// How many bytes it has.
    pub len: u32,
}

impl SockAddr {
    /// The bytes of the address.
    pub open spec fn bytes(&self) -> Seq<u8> {
        self.storage.bytes@.take(self.len as int)
    }

    /// The address fits.
    pub open spec fn wf(&self) -> bool {
        self.storage.wf() && self.len <= SOCKADDR_STORAGE_LEN
    }

    /// The address that the first bytes of the storage make up.
    pub fn new(storage: AddrStorage, len: u32) -> (addr: Self)
        ensures
            addr.storage == storage,
            addr.len == len,
    {
        SockAddr { storage, len }
    }

    /// How many bytes the address has.
    pub fn len(&self) -> (len: u32)
        ensures
            len == self.len,
    {
        self.len
    }
}

/// Room for an address has as many bytes as any address can have, all of them zero. An address is what the storage
/// holds, as long as it was said to be.
pub proof fn law_addresses(storage: AddrStorage, len: u32, addr: SockAddr, shown: u32)
    requires
        call_ensures(SockAddr::new, (storage, len), addr),
        call_ensures(SockAddr::len, (&addr,), shown),
    ensures
        addr.storage == storage,
        shown == len,
        addr.len == len,
        forall|room: AddrStorage| #[trigger]
            call_ensures(AddrStorage::new, (), room) ==> room.bytes@.len() == 128 && forall|i: int|
                0 <= i < 128 ==> #[trigger] room.bytes@[i] == 0,
{
}

} // verus!
