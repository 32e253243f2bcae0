//! Link and network addresses, held as plain octets.
use vstd::prelude::*;

verus! {

/// A 48-bit Ethernet (MAC) address, octets in transmission order.
#[derive(Debug, Clone, Copy, PartialEq, Eq, Structural)]
pub struct MacAddress(pub u8, pub u8, pub u8, pub u8, pub u8, pub u8);

/// An IPv4 address, octets in transmission order.
#[derive(Debug, Clone, Copy, PartialEq, Eq, Structural)]
pub struct Ipv4Address(pub u8, pub u8, pub u8, pub u8);

impl MacAddress {
    /// The six octets as they appear on the wire.
    pub open spec fn spec_bytes(self) -> Seq<u8> {
        seq![self.0, self.1, self.2, self.3, self.4, self.5]
    }

    /// The address whose octets stand at offset `i` of `s`.
    pub open spec fn spec_at(s: Seq<u8>, i: int) -> MacAddress {
        MacAddress(s[i], s[i + 1], s[i + 2], s[i + 3], s[i + 4], s[i + 5])
    }

    /// Appends the six octets.
    pub fn push_to(&self, buffer: &mut Vec<u8>)
        ensures
            final(buffer)@ == old(buffer)@ + self.spec_bytes(),
    {
        buffer.push(self.0);
        buffer.push(self.1);
        buffer.push(self.2);
        buffer.push(self.3);
        buffer.push(self.4);
        buffer.push(self.5);
    }

    /// Reads the address at offset `i`.
    pub fn read(data: &[u8], i: usize) -> (m: MacAddress)
        requires
            i + 6 <= data.len(),
        ensures
            m == MacAddress::spec_at(data@, i as int),
    {
        MacAddress(data[i], data[i + 1], data[i + 2], data[i + 3], data[i + 4], data[i + 5])
    }

    /// The address at offset `i` is this one exactly when the six bytes there are its octets.
    pub proof fn lemma_at_iff(self, s: Seq<u8>, i: int)
        requires
            0 <= i,
            i + 6 <= s.len(),
        ensures
            (MacAddress::spec_at(s, i) == self) == (s.subrange(i, i + 6) == self.spec_bytes()),
    {
        if s.subrange(i, i + 6) == self.spec_bytes() {
            self.lemma_round_trip(s, i);
        }
        if MacAddress::spec_at(s, i) == self {
            assert(s.subrange(i, i + 6) =~= self.spec_bytes());
        }
    }

    /// Reading an address where its octets were written gives it back.
    pub proof fn lemma_round_trip(self, s: Seq<u8>, i: int)
        requires
            0 <= i,
            i + 6 <= s.len(),
            s.subrange(i, i + 6) == self.spec_bytes(),
        ensures
            MacAddress::spec_at(s, i) == self,
    {
        let w = s.subrange(i, i + 6);
        assert(s[i] == w[0] && s[i + 1] == w[1] && s[i + 2] == w[2]);
        assert(s[i + 3] == w[3] && s[i + 4] == w[4] && s[i + 5] == w[5]);
    }
}

impl Ipv4Address {
    /// The four octets as they appear on the wire.
    pub open spec fn spec_bytes(self) -> Seq<u8> {
        seq![self.0, self.1, self.2, self.3]
    }

    /// The address whose octets stand at offset `i` of `s`.
    pub open spec fn spec_at(s: Seq<u8>, i: int) -> Ipv4Address {
        Ipv4Address(s[i], s[i + 1], s[i + 2], s[i + 3])
    }

    /// The four octets.
    pub fn octets(&self) -> (o: [u8; 4])
        ensures
            o@ == self.spec_bytes(),
    {
        [self.0, self.1, self.2, self.3]
    }

    /// Appends the four octets.
    pub fn push_to(&self, buffer: &mut Vec<u8>)
        ensures
            final(buffer)@ == old(buffer)@ + self.spec_bytes(),
    {
        buffer.push(self.0);
        buffer.push(self.1);
        buffer.push(self.2);
        buffer.push(self.3);
    }

    /// Reads the address at offset `i`.
    pub fn read(data: &[u8], i: usize) -> (a: Ipv4Address)
        requires
            i + 4 <= data.len(),
        ensures
            a == Ipv4Address::spec_at(data@, i as int),
    {
        Ipv4Address(data[i], data[i + 1], data[i + 2], data[i + 3])
    }

    /// The address at offset `i` is this one exactly when the four bytes there are its octets.
    pub proof fn lemma_at_iff(self, s: Seq<u8>, i: int)
        requires
            0 <= i,
            i + 4 <= s.len(),
        ensures
            (Ipv4Address::spec_at(s, i) == self) == (s.subrange(i, i + 4) == self.spec_bytes()),
    {
        if s.subrange(i, i + 4) == self.spec_bytes() {
            self.lemma_round_trip(s, i);
        }
        if Ipv4Address::spec_at(s, i) == self {
            assert(s.subrange(i, i + 4) =~= self.spec_bytes());
        }
    }

    /// Reading an address where its octets were written gives it back.
    pub proof fn lemma_round_trip(self, s: Seq<u8>, i: int)
        requires
            0 <= i,
            i + 4 <= s.len(),
            s.subrange(i, i + 4) == self.spec_bytes(),
        ensures
            Ipv4Address::spec_at(s, i) == self,
    {
        let w = s.subrange(i, i + 4);
        assert(s[i] == w[0] && s[i + 1] == w[1] && s[i + 2] == w[2] && s[i + 3] == w[3]);
    }
}

} // verus!
