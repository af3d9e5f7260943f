//! IPv4 addresses and networks in the usual notation.

use vstd::prelude::*;

use crate::digits;
use crate::digits::dec;
use crate::text::{cat3, cat8};

verus! {

/// An IPv4 network: its first address and the length of its prefix.
#[derive(Clone, Copy, Debug)]
pub struct Ipv4Net {
    pub address: [u8; 4],
    pub length: u8,
}

/// An address as a number.
pub open spec fn address_value(octets: Seq<u8>) -> int {
    octets[0] * 0x100_0000 + octets[1] * 0x1_0000 + octets[2] * 0x100 + octets[3]
}

impl Ipv4Net {
    /// The prefix is no longer than an address, and the address is the first one of
    /// the network.
    pub open spec fn wf(&self) -> bool {
        &&& self.length <= 32
        &&& address_value(self.address@) % (vstd::arithmetic::power2::pow2((32 - self.length) as nat) as int) == 0
    }
}

impl View for Ipv4Net {
    type V = (Seq<u8>, u8);

    open spec fn view(&self) -> (Seq<u8>, u8) {
        (self.address@, self.length)
    }
}

/// What `Ipv4Cidr::from_str` makes of a text: the first address and the prefix
/// length of a network, or its complaint.
pub uninterp spec fn cidr_of(text: Seq<char>) -> Result<(Seq<u8>, u8), Seq<char>>;

/// A network or a complaint, over what they hold.
pub open spec fn view_net(r: Result<Ipv4Net, String>) -> Result<(Seq<u8>, u8), Seq<char>> {
    match r {
        Ok(n) => Ok(n@),
        Err(e) => Err(e@),
    }
}

/// `Ipv4Cidr::from_str`: reads a network in CIDR notation. Whether it can be read,
/// what network it is and how the complaint is worded depend on the text alone; a
/// network that is read has a prefix of at most 32 bits and no bits set after it.
#[verifier::external_body]
pub(crate) fn parse_cidr(text: &str) -> (r: Result<Ipv4Net, String>)
    ensures
        view_net(r) == cidr_of(text@),
        r matches Ok(n) ==> n.wf(),
{
    match text.parse::<cidr::Ipv4Cidr>() {
        Ok(net) => Ok(Ipv4Net { address: net.first_address().octets(), length: net.network_length() }),
        Err(err) => Err(err.to_string()),
    }
}

/// An address with dots between its numbers.
pub open spec fn address_text(octets: Seq<u8>) -> Seq<char> {
    digits::decimal(octets[0] as nat) + "."@ + digits::decimal(octets[1] as nat) + "."@ + digits::decimal(octets[2] as nat)
        + "."@ + digits::decimal(octets[3] as nat)
}

/// Writes an address with dots between its numbers.
pub fn write_address(octets: &[u8; 4]) -> (r: String)
    ensures
        r@ == address_text(octets@),
{
    let a = dec(octets[0] as u64);
    let b = dec(octets[1] as u64);
    let c = dec(octets[2] as u64);
    let d = dec(octets[3] as u64);
    let mut out = crate::text::cat6(a.as_str(), ".", b.as_str(), ".", c.as_str(), ".");
    out.append(d.as_str());
    out
}

/// A network in CIDR notation; a single address stands without its prefix length.
pub open spec fn net_text(net: (Seq<u8>, u8)) -> Seq<char> {
    if net.1 == 32 {
        address_text(net.0)
    } else {
        address_text(net.0) + "/"@ + digits::decimal(net.1 as nat)
    }
}

/// Writes a network in CIDR notation.
pub fn write_net(net: &Ipv4Net) -> (r: String)
    ensures
        r@ == net_text(net@),
{
    let address = write_address(&net.address);
    if net.length == 32 {
        address
    } else {
        cat3(address.as_str(), "/", dec(net.length as u64).as_str())
    }
}

/// An address is written as its four numbers in order with dots between them, so that different
/// addresses are written differently.
pub proof fn law_address_is_four_numbers(octets: &[u8; 4], r: String, i: int)
    requires
        call_ensures(write_address, (octets,), r),
        0 <= i < 4,
    ensures
        crate::text::split_on(r@, '.').len() == 4,
        digits::all_digits(crate::text::split_on(r@, '.')[i]),
        digits::digits_value(crate::text::split_on(r@, '.')[i]) == octets@[i],
{
    reveal_strlit(".");
    let parts = Seq::new(4, |k: int| digits::decimal(octets@[k] as nat));
    let dot = seq!['.'];
    assert("."@ =~= dot);
    assert forall|k: int| 0 <= k < 4 implies !(#[trigger] parts[k]).contains('.') by {
        let d = digits::decimal(octets@[k] as nat);
        digits::lemma_decimal_reads_back(octets@[k] as nat);
        assert forall|j: int| 0 <= j < d.len() implies d[j] != '.' by {
            assert(digits::is_digit(d[j]));
        }
    }
    crate::text::lemma_split_joined(parts, '.');
    let p3 = parts.drop_last();
    let p2 = p3.drop_last();
    let p1 = p2.drop_last();
    assert(crate::text::joined(p1, dot) == parts[0]);
    assert(crate::text::joined(p2, dot) == parts[0] + dot + parts[1]);
    assert(crate::text::joined(p3, dot) == parts[0] + dot + parts[1] + dot + parts[2]);
    assert(crate::text::joined(parts, dot) == parts[0] + dot + parts[1] + dot + parts[2] + dot + parts[3]);
    assert(crate::text::joined(parts, dot) == r@);
    digits::lemma_decimal_reads_back(octets@[i] as nat);
}

/// A network is written as its first address, followed by a slash and the length of its prefix unless
/// it is a single address.
pub proof fn law_network_is_address_and_length(net: &Ipv4Net, r: String, address: String)
    requires
        call_ensures(write_net, (net,), r),
        call_ensures(write_address, (&net.address,), address),
    ensures
        net.length == 32 ==> r@ == address@,
        net.length != 32 ==> r@ == address@ + seq!['/'] + digits::decimal(net.length as nat),
{
    reveal_strlit("/");
    assert("/"@ =~= seq!['/']);
}

} // verus!
