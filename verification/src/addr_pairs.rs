use vstd::prelude::*;

verus! {

/// The source and destination IPv4 addresses of a packet, each as the 32-bit big-endian value of
/// its four octets.
#[derive(Clone, Copy, Debug, PartialEq, Eq, Structural)]
pub struct Ipv4AddrPair {
    pub src: u32,
    pub dst: u32,
}

impl Ipv4AddrPair {
    pub fn new(src: u32, dst: u32) -> (r: Self)
        ensures
            r.src == src,
            r.dst == dst,
    {
        Ipv4AddrPair { src, dst }
    }

    /// The pair for a packet going the other way.
    pub open spec fn swapped_spec(self) -> Self {
        Ipv4AddrPair { src: self.dst, dst: self.src }
    }

    /// The pair for a packet going the other way.
    pub fn swapped(self) -> (r: Self)
        ensures
            r == self.swapped_spec(),
    {
        Ipv4AddrPair { src: self.dst, dst: self.src }
    }
}

/// The source and destination ports of a TCP segment or UDP datagram.
#[derive(Clone, Copy, Debug, PartialEq, Eq, Structural)]
pub struct PortPair {
    pub src: u16,
    pub dst: u16,
}

impl PortPair {
    pub fn new(src: u16, dst: u16) -> (r: Self)
        ensures
            r.src == src,
            r.dst == dst,
    {
        PortPair { src, dst }
    }

    /// The pair for a segment going the other way.
    pub fn swapped(self) -> (r: Self)
        ensures
            r.src == self.dst,
            r.dst == self.src,
    {
        PortPair { src: self.dst, dst: self.src }
    }
}

} // verus!
