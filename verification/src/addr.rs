use vstd::prelude::*;

verus! {

/// An IP address held as plain values: `V4` carries the four octets as one
/// big-endian 32-bit value, `V6` the sixteen octets as one big-endian
/// 128-bit value. The codec only reads the family for dispatch and echoes
/// the address back as the source of a decoded reply.
#[derive(Debug, Clone, Copy, PartialEq, Eq, Structural)]
pub enum IpAddress {
    V4(u32),
    V6(u128),
}

impl IpAddress {
    /// True when this address belongs to the IPv4 family.
    pub open spec fn spec_is_ipv4(self) -> bool {
        self is V4
    }

    pub fn is_ipv4(&self) -> (r: bool)
        ensures
            r == self.spec_is_ipv4(),
    {
        match self {
            IpAddress::V4(_) => true,
            IpAddress::V6(_) => false,
        }
    }
}

} // verus!
