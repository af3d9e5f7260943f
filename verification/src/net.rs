//! Internet addresses as plain values.

use vstd::prelude::*;

verus! {

/// An IPv4 or IPv6 address.
#[derive(Clone, Copy, Debug, PartialEq, Eq)]
pub enum IpAddress {
    V4([u8; 4]),
    V6([u16; 8]),
}

/// An address and a port.
#[derive(Clone, Copy, Debug, PartialEq, Eq)]
pub struct SocketAddress {
    pub ip: IpAddress,
    pub port: u16,
}

impl IpAddress {
    /// Whether this is a loopback address: 127.0.0.0/8 or ::1.
    pub open spec fn spec_is_loopback(self) -> bool {
        match self {
            IpAddress::V4(o) => o[0] == 127,
            IpAddress::V6(s) => s@ == seq![0u16, 0, 0, 0, 0, 0, 0, 1],
        }
    }

    /// Whether this is a loopback address.
    pub fn is_loopback(&self) -> (r: bool)
        ensures
            r == self.spec_is_loopback(),
    {
        match self {
            IpAddress::V4(o) => o[0] == 127,
            IpAddress::V6(s) => {
                let r = s[0] == 0 && s[1] == 0 && s[2] == 0 && s[3] == 0 && s[4] == 0 && s[5] == 0 && s[6] == 0 && s[7] == 1;
                proof {
                    let one = seq![0u16, 0, 0, 0, 0, 0, 0, 1];
                    if r {
                        assert(s@ =~= one);
                    } else {
                        assert(one[7] == 1 && one[0] == 0 && one[1] == 0 && one[2] == 0 && one[3] == 0 && one[4] == 0
                            && one[5] == 0 && one[6] == 0);
                    }
                }
                r
            },
        }
    }
}

/// The loopback addresses are those from 127.0.0.0 to 127.255.255.255, and the IPv6 address whose
/// only bit is the last.
pub proof fn law_loopback(ip: &IpAddress, r: bool)
    requires
        call_ensures(IpAddress::is_loopback, (ip,), r),
    ensures
        *ip matches IpAddress::V4(o) ==> (r <==> 0x7F00_0000 <= o@[0] * 0x100_0000 + o@[1] * 0x1_0000 + o@[2] * 0x100 + o@[3]
            <= 0x7FFF_FFFF),
        *ip matches IpAddress::V6(s) ==> (r <==> s@[7] == 1 && forall|i: int| 0 <= i < 7 ==> #[trigger] s@[i] == 0),
{
    if let IpAddress::V6(s) = *ip {
        let one = seq![0u16, 0, 0, 0, 0, 0, 0, 1];
        assert(one[7] == 1 && forall|i: int| 0 <= i < 7 ==> #[trigger] one[i] == 0);
        if s@[7] == 1 && forall|i: int| 0 <= i < 7 ==> #[trigger] s@[i] == 0 {
            assert(s@ =~= one);
        }
    }
}

} // verus!
