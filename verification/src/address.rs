//! Remote endpoints and the integer keys they are stored under.

use vstd::prelude::*;

verus! {

/// Number of distinct ports of one host.
pub const PORTS_PER_HOST: u64 = 65536;

/// A remote endpoint: an IPv4 host, as the big-endian integer of its four
/// octets, and a UDP port.
#[derive(Clone, Copy, Debug, PartialEq, Eq, Hash, Structural)]
pub struct Address {
    pub host: u32,
    pub port: u16,
}

impl Address {
    /// The integer under which this address is stored: the host in the upper
    /// bits and the port in the lower sixteen.
    pub open spec fn spec_key(self) -> u64 {
        (self.host * PORTS_PER_HOST + self.port) as u64
    }

    /// Whether `key` is the key of some address.
    pub open spec fn is_key(key: u64) -> bool {
        key / PORTS_PER_HOST <= u32::MAX
    }

    /// The address stored under `key`.
    pub open spec fn spec_from_key(key: u64) -> Address {
        Address { host: (key / PORTS_PER_HOST) as u32, port: (key % PORTS_PER_HOST) as u16 }
    }

    /// Builds the address `a.b.c.d:port`.
    pub fn from_octets(a: u8, b: u8, c: u8, d: u8, port: u16) -> (address: Address)
        ensures
            address.host == a * 16777216 + b * 65536 + c * 256 + d,
            address.port == port,
    {
        let host: u32 = (a as u32) * 16777216 + (b as u32) * 65536 + (c as u32) * 256 + (d as u32);
        Address { host, port }
    }

    /// The four octets of the host, most significant first.
    pub fn octets(&self) -> (octets: [u8; 4])
        ensures
            self.host == octets[0] * 16777216 + octets[1] * 65536 + octets[2] * 256 + octets[3],
    {
        let a: u8 = (self.host / 16777216) as u8;
        let b: u8 = ((self.host / 65536) % 256) as u8;
        let c: u8 = ((self.host / 256) % 256) as u8;
        let d: u8 = (self.host % 256) as u8;
        [a, b, c, d]
    }

    /// The key of this address; it reads back as the address.
    #[verifier::when_used_as_spec(spec_key)]
    pub fn key(self) -> (key: u64)
        ensures
            key == self.spec_key(),
            Address::is_key(key),
            Address::spec_from_key(key) == self,
    {
        (self.host as u64) * PORTS_PER_HOST + (self.port as u64)
    }

    /// Reads an address back from its key; `None` where `key` is no key.
    pub fn from_key(key: u64) -> (address: Option<Address>)
        ensures
            address.is_some() == Address::is_key(key),
            address matches Some(a) ==> a == Address::spec_from_key(key) && a.spec_key() == key,
    {
        let host: u64 = key / PORTS_PER_HOST;
        if host <= 0xffff_ffff {
            Some(Address { host: host as u32, port: (key % PORTS_PER_HOST) as u16 })
        } else {
            None
        }
    }
}

} // verus!
