//! Locally administered, unicast hardware addresses for the virtual interface.
use vstd::prelude::*;
use vstd::string::{StrSliceExecFns, StringExecFns};

verus! {

/// Bit of the first octet that marks an address as locally administered.
pub const LOCAL_BIT: u8 = 0b0000_0010;

/// Bit of the first octet that marks an address as multicast.
pub const MULTICAST_BIT: u8 = 0b0000_0001;

/// A 6-byte link-layer address.
#[derive(Debug, Clone, Copy, PartialEq, Eq)]
pub struct MacAddress {
    octets: [u8; 6],
}

/// The text form of a nibble: one lowercase hexadecimal digit.
pub open spec fn hex_char(n: u8) -> char {
    seq!['0', '1', '2', '3', '4', '5', '6', '7', '8', '9', 'a', 'b', 'c', 'd', 'e', 'f'][n as int]
}

/// Two lowercase hexadecimal digits for one byte.
pub open spec fn hex_byte(b: u8) -> Seq<char> {
    seq![hex_char(b / 16), hex_char(b % 16)]
}

/// `xx:xx:xx:xx:xx:xx`, the canonical text of six octets.
pub open spec fn mac_text(o: Seq<u8>) -> Seq<char> {
    hex_byte(o[0]) + seq![':'] + hex_byte(o[1]) + seq![':'] + hex_byte(o[2]) + seq![':']
        + hex_byte(o[3]) + seq![':'] + hex_byte(o[4]) + seq![':'] + hex_byte(o[5])
}

/// The digit for a nibble.
fn hex_digit(n: u8) -> (r: &'static str)
    requires
        n < 16,
    ensures
        r@ == seq![hex_char(n)],
{
    let digits = "0123456789abcdef";
    proof {
        reveal_strlit("0123456789abcdef");
    }
    let r = digits.substring_char(n as usize, n as usize + 1);
    assert(r@ =~= seq![hex_char(n)]);
    r
}

impl View for MacAddress {
    type V = Seq<u8>;

    /// The six octets, first to last.
    closed spec fn view(&self) -> Seq<u8> {
        self.octets@
    }
}

impl MacAddress {
    /// The address holds the locally-administered bit.
    pub open spec fn local(&self) -> bool {
        self@[0] & LOCAL_BIT != 0
    }

    /// The address has the multicast bit cleared.
    pub open spec fn unicast(&self) -> bool {
        self@[0] & MULTICAST_BIT == 0
    }

    /// Make an address from six raw bytes, forcing the locally-administered bit
    /// on and the multicast bit off in the first octet.
    pub fn from_random(bytes: [u8; 6]) -> (r: MacAddress)
        ensures
            r@.len() == 6,
            r@[0] == (bytes[0] | LOCAL_BIT) & !MULTICAST_BIT,
            forall|i: int| 1 <= i < 6 ==> r@[i] == bytes[i],
            r.local(),
            r.unicast(),
    {
        let mut octets = bytes;
        octets[0] = (bytes[0] | LOCAL_BIT) & !MULTICAST_BIT;
        let b = bytes[0];
        assert(((b | 2u8) & !1u8) & 2u8 != 0 && ((b | 2u8) & !1u8) & 1u8 == 0) by (bit_vector);
        MacAddress { octets }
    }

    /// A fresh address from the process-wide random source; whatever bytes
    /// come out of it, the address is local and unicast.
    pub fn generate() -> (r: MacAddress)
        ensures
            r.local(),
            r.unicast(),
    {
        let bytes: [u8; 6] = rand::random::<[u8; 6]>();
        MacAddress::from_random(bytes)
    }

    pub fn is_local(&self) -> (r: bool)
        ensures
            r == self.local(),
    {
        self.octets[0] & LOCAL_BIT != 0
    }

    pub fn is_unicast(&self) -> (r: bool)
        ensures
            r == self.unicast(),
    {
        self.octets[0] & MULTICAST_BIT == 0
    }

    /// The canonical text, six pairs of lowercase hexadecimal digits joined by
    /// colons.
    pub fn to_string(&self) -> (r: String)
        ensures
            r@ == mac_text(self@),
    {
        let mut r = String::new();
        let mut i: usize = 0;
        while i < 6
            invariant
                i <= 6,
                self@.len() == 6,
                i > 0 ==> r@ == mac_text(self@).subrange(0, 3 * i - 1),
                i == 0 ==> r@.len() == 0,
            decreases 6 - i,
        {
            if i > 0 {
                r.append(":");
                proof { reveal_strlit(":"); }
            }
            let b = self.octets[i];
            r.append(hex_digit(b / 16));
            r.append(hex_digit(b % 16));
            i = i + 1;
            assert(r@ =~= mac_text(self@).subrange(0, 3 * i - 1));
        }
        assert(r@ =~= mac_text(self@));
        r
    }

    pub fn octets(&self) -> (r: [u8; 6])
        ensures
            r@ == self@,
    {
        self.octets
    }
}

} // verus!
