//! Converters between network addresses and 32-bit integers, and the
//! mutators derived through them.
//!
//! Addresses are modeled as plain values: a version-4 address is its
//! 32-bit number, a socket address an address with a port.

use vstd::prelude::*;

use crate::mutators::extended::ExtendedMutator;
use crate::mutators::integer_within_range::U32WithinRangeMutator;
use crate::traits::{Mutator, MutatorValueConverter};

verus! {

/// An internet address: a version-4 address as its four octets, or a
/// version-6 address, which the converters do not handle.
#[derive(Clone, Copy, Debug, PartialEq, Eq, Structural)]
pub enum IpAddress {
    V4(u8, u8, u8, u8),
    V6,
}

impl DeepView for IpAddress {
    type V = IpAddress;

    open spec fn deep_view(&self) -> IpAddress {
        *self
    }
}

/// A socket address: an internet address and a port.
#[derive(Clone, Copy, Debug, PartialEq, Eq, Structural)]
pub struct SockAddress {
    pub ip: IpAddress,
    pub port: u16,
}

impl DeepView for SockAddress {
    type V = SockAddress;

    open spec fn deep_view(&self) -> SockAddress {
        *self
    }
}

/// The port every socket address built from an integer carries.
pub const DEFAULT_PORT: u16 = 12345;

/// The number of a version-4 address, octets high to low.
pub open spec fn ipv4_number(a: u8, b: u8, c: u8, d: u8) -> u32 {
    (((a as u32) << 24u32) | ((b as u32) << 16u32) | ((c as u32) << 8u32) | (d as u32)) as u32
}

/// The 32-bit number of a version-4 address.
pub fn ipv4_to_u32(ip: &IpAddress) -> (r: u32)
    requires
        ip is V4,
    ensures
        (*ip matches IpAddress::V4(a, b, c, d) ==> r == ipv4_number(a, b, c, d)),
{
    match ip {
        IpAddress::V4(a, b, c, d) => {
            ((*a as u32) << 24u32) | ((*b as u32) << 16u32) | ((*c as u32) << 8u32) | (*d as u32)
        },
        IpAddress::V6 => {
            proof {
                assert(false);
            }
            0
        },
    }
}

/// The version-4 address of a 32-bit number.
pub fn ipv4_from_u32(id: u32) -> (r: IpAddress)
    ensures
        r == IpAddress::V4(
            (id >> 24u32) as u8,
            ((id >> 16u32) & 0xffu32) as u8,
            ((id >> 8u32) & 0xffu32) as u8,
            (id & 0xffu32) as u8,
        ),
        (r matches IpAddress::V4(a, b, c, d) ==> ipv4_number(a, b, c, d) == id),
{
    let a: u8 = (id >> 24u32) as u8;
    let b: u8 = ((id >> 16u32) & 0xffu32) as u8;
    let c: u8 = ((id >> 8u32) & 0xffu32) as u8;
    let d: u8 = (id & 0xffu32) as u8;
    proof {
        assert(ipv4_number(
            (id >> 24u32) as u8,
            ((id >> 16u32) & 0xffu32) as u8,
            ((id >> 8u32) & 0xffu32) as u8,
            (id & 0xffu32) as u8,
        ) == id) by (bit_vector);
    }
    IpAddress::V4(a, b, c, d)
}

/// Converts between version-4 addresses and their 32-bit numbers.
pub struct IpAddrU32Converter {}

impl IpAddrU32Converter {
    /// Builds the converter.
    pub fn new() -> (r: IpAddrU32Converter) {
        IpAddrU32Converter {}
    }
}

impl MutatorValueConverter for IpAddrU32Converter {
    type InnerValue = u32;

    type Value = IpAddress;

    open spec fn from_inner_spec(&self, inner: u32) -> IpAddress {
        IpAddress::V4(
            (inner >> 24u32) as u8,
            ((inner >> 16u32) & 0xffu32) as u8,
            ((inner >> 8u32) & 0xffu32) as u8,
            (inner & 0xffu32) as u8,
        )
    }

    open spec fn to_inner_spec(&self, value: IpAddress) -> u32 {
        match value {
            IpAddress::V4(a, b, c, d) => ipv4_number(a, b, c, d),
            IpAddress::V6 => 0,
        }
    }

    open spec fn converter_accepts(&self, value: IpAddress) -> bool {
        value is V4
    }

    proof fn lemma_round_trip(&self, value: IpAddress) {
        match value {
            IpAddress::V4(a, b, c, d) => {
                let n = ipv4_number(a, b, c, d);
                assert((((((a as u32) << 24u32) | ((b as u32) << 16u32) | ((c as u32) << 8u32) | (
                d as u32)) as u32) >> 24u32) as u8 == a && (((((a as u32) << 24u32) | ((
                b as u32) << 16u32) | ((c as u32) << 8u32) | (d as u32)) as u32 >> 16u32)
                    & 0xffu32) as u8 == b && (((((a as u32) << 24u32) | ((b as u32) << 16u32) | ((
                c as u32) << 8u32) | (d as u32)) as u32 >> 8u32) & 0xffu32) as u8 == c && (((((
                a as u32) << 24u32) | ((b as u32) << 16u32) | ((c as u32) << 8u32) | (d as u32))
                    as u32) & 0xffu32) as u8 == d) by (bit_vector);
            },
            IpAddress::V6 => {
            },
        }
    }

    proof fn lemma_inner_round_trip(&self, inner: u32) {
        assert(ipv4_number(
            (inner >> 24u32) as u8,
            ((inner >> 16u32) & 0xffu32) as u8,
            ((inner >> 8u32) & 0xffu32) as u8,
            (inner & 0xffu32) as u8,
        ) == inner) by (bit_vector);
    }

    fn from_inner_value_ref(&self, inner_value: &u32) -> (r: IpAddress) {
        ipv4_from_u32(*inner_value)
    }

    fn to_inner_value_ref(&self, value: &IpAddress) -> (r: u32) {
        ipv4_to_u32(value)
    }

    fn try_to_inner(&self, value: &IpAddress) -> (r: Option<u32>) {
        match value {
            IpAddress::V4(_, _, _, _) => Some(ipv4_to_u32(value)),
            IpAddress::V6 => None,
        }
    }
}

/// Converts between socket addresses at the default port and 32-bit
/// numbers.
pub struct SocketAddrU32Converter {}

impl SocketAddrU32Converter {
    /// Builds the converter.
    pub fn new() -> (r: SocketAddrU32Converter) {
        SocketAddrU32Converter {}
    }
}

impl MutatorValueConverter for SocketAddrU32Converter {
    type InnerValue = u32;

    type Value = SockAddress;

    open spec fn from_inner_spec(&self, inner: u32) -> SockAddress {
        SockAddress {
            ip: IpAddress::V4(
                (inner >> 24u32) as u8,
                ((inner >> 16u32) & 0xffu32) as u8,
                ((inner >> 8u32) & 0xffu32) as u8,
                (inner & 0xffu32) as u8,
            ),
            port: DEFAULT_PORT,
        }
    }

    open spec fn to_inner_spec(&self, value: SockAddress) -> u32 {
        match value.ip {
            IpAddress::V4(a, b, c, d) => ipv4_number(a, b, c, d),
            IpAddress::V6 => 0,
        }
    }

    open spec fn converter_accepts(&self, value: SockAddress) -> bool {
        value.ip is V4 && value.port == DEFAULT_PORT
    }

    proof fn lemma_round_trip(&self, value: SockAddress) {
        match value.ip {
            IpAddress::V4(a, b, c, d) => {
                assert((((((a as u32) << 24u32) | ((b as u32) << 16u32) | ((c as u32) << 8u32) | (
                d as u32)) as u32) >> 24u32) as u8 == a && (((((a as u32) << 24u32) | ((
                b as u32) << 16u32) | ((c as u32) << 8u32) | (d as u32)) as u32 >> 16u32)
                    & 0xffu32) as u8 == b && (((((a as u32) << 24u32) | ((b as u32) << 16u32) | ((
                c as u32) << 8u32) | (d as u32)) as u32 >> 8u32) & 0xffu32) as u8 == c && (((((
                a as u32) << 24u32) | ((b as u32) << 16u32) | ((c as u32) << 8u32) | (d as u32))
                    as u32) & 0xffu32) as u8 == d) by (bit_vector);
            },
            IpAddress::V6 => {
            },
        }
    }

    proof fn lemma_inner_round_trip(&self, inner: u32) {
        assert(ipv4_number(
            (inner >> 24u32) as u8,
            ((inner >> 16u32) & 0xffu32) as u8,
            ((inner >> 8u32) & 0xffu32) as u8,
            (inner & 0xffu32) as u8,
        ) == inner) by (bit_vector);
    }

    fn from_inner_value_ref(&self, inner_value: &u32) -> (r: SockAddress) {
        let ip = ipv4_from_u32(*inner_value);
        proof {
            self.lemma_inner_round_trip(*inner_value);
        }
        SockAddress { ip, port: DEFAULT_PORT }
    }

    fn to_inner_value_ref(&self, value: &SockAddress) -> (r: u32) {
        ipv4_to_u32(&value.ip)
    }

    fn try_to_inner(&self, value: &SockAddress) -> (r: Option<u32>) {
        match value.ip {
            IpAddress::V4(_, _, _, _) => {
                if value.port == DEFAULT_PORT {
                    Some(ipv4_to_u32(&value.ip))
                } else {
                    None
                }
            },
            IpAddress::V6 => None,
        }
    }
}

/// A mutator for version-4 addresses within a numeric range.
pub type IpAddrMutatorInner = ExtendedMutator<U32WithinRangeMutator, IpAddrU32Converter>;

/// A mutator for socket addresses at the default port within a numeric
/// range.
pub type SocketAddrMutatorInner = ExtendedMutator<U32WithinRangeMutator, SocketAddrU32Converter>;

/// Builds the address mutator over numbers `1..=limit`.
pub fn new_ip_addr_mutator(limit: u32) -> (r: IpAddrMutatorInner)
    requires
        limit >= 1,
    ensures
        r.m_wf(),
{
    ExtendedMutator::new(U32WithinRangeMutator::new(1, limit), IpAddrU32Converter::new())
}

/// Builds the socket-address mutator over numbers `1..=limit`.
pub fn new_socket_addr_mutator(limit: u32) -> (r: SocketAddrMutatorInner)
    requires
        limit >= 1,
    ensures
        r.m_wf(),
{
    ExtendedMutator::new(U32WithinRangeMutator::new(1, limit), SocketAddrU32Converter::new())
}

} // verus!
