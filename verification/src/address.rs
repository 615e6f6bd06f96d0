use vstd::prelude::*;

verus! {

/// An IP address, as the raw octets that identify it on the wire.
#[derive(Clone, Copy, Debug, PartialEq, Eq)]
pub enum IpAddress {
    V4([u8; 4]),
    V6([u8; 16]),
}

/// An IP address together with a UDP port.
#[derive(Clone, Copy, Debug, PartialEq, Eq)]
pub struct SocketAddress {
    pub ip: IpAddress,
    pub port: u16,
}

impl IpAddress {
    /// The octets of the address: four for IPv4, sixteen for IPv6.
    pub open spec fn spec_octets(self) -> Seq<u8> {
        match self {
            IpAddress::V4(a) => a@,
            IpAddress::V6(a) => a@,
        }
    }

    /// Copies the octets of the address into a vector.
    pub fn octets(&self) -> (res: Vec<u8>)
        ensures
            res@ == self.spec_octets(),
            res@.len() == (match self {
                IpAddress::V4(_) => 4int,
                IpAddress::V6(_) => 16int,
            }),
    {
        match self {
            IpAddress::V4(a) => copy_octets(a.as_slice()),
            IpAddress::V6(a) => copy_octets(a.as_slice()),
        }
    }
}

fn copy_octets(a: &[u8]) -> (res: Vec<u8>)
    ensures
        res@ == a@,
{
    let mut res: Vec<u8> = Vec::new();
    let mut i: usize = 0;
    while i < a.len()
        invariant
            i <= a@.len(),
            res@ == a@.take(i as int),
        decreases a@.len() - i,
    {
        res.push(a[i]);
        i = i + 1;
        assert(res@ == a@.take(i as int));
    }
    assert(a@.take(a@.len() as int) == a@);
    res
}

} // verus!
