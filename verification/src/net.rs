//! Selection and display of the client's own network address.
//!
//! At startup the client announces its local IPv4 address in a `Register`
//! message.  The embedding application enumerates the host's interfaces;
//! the selection rule itself lives here: the first non-loopback IPv4
//! address wins, and the sentinel 0.0.0.0 stands in when there is none.

use vstd::prelude::*;
use crate::msg::Ipv4;

verus! {

/// One host network interface as the selection rule sees it: whether it is
/// a loopback, and its IPv4 address if it has one.
#[derive(Clone, Copy, PartialEq, Eq, Structural, Debug)]
pub struct Interface {
    pub loopback: bool,
    pub ipv4: Option<Ipv4>,
}

/// The sentinel address 0.0.0.0.
pub open spec fn spec_unspecified() -> Ipv4 {
    Ipv4 { a: 0, b: 0, c: 0, d: 0 }
}

/// The first non-loopback IPv4 address in the list, or the sentinel.
pub open spec fn spec_pick_ipv4(ifaces: Seq<Interface>) -> Ipv4
    decreases ifaces.len(),
{
    if ifaces.len() == 0 {
        spec_unspecified()
    } else if !ifaces[0].loopback && ifaces[0].ipv4 is Some {
        ifaces[0].ipv4->0
    } else {
        spec_pick_ipv4(ifaces.drop_first())
    }
}

/// Picks the address to announce: the first non-loopback IPv4 address of
/// the host, in interface order, defaulting to 0.0.0.0.
pub fn get_local_ipv4(ifaces: &Vec<Interface>) -> (r: Ipv4)
    ensures
        r == spec_pick_ipv4(ifaces@),
{
    let n = ifaces.len();
    proof {
        assert(ifaces@.skip(0) =~= ifaces@);
    }
    for i in 0..n
        invariant
            n == ifaces@.len(),
            spec_pick_ipv4(ifaces@) == spec_pick_ipv4(ifaces@.skip(i as int)),
    {
        let iface = ifaces[i];
        proof {
            assert(ifaces@.skip(i as int)[0] == iface);
            assert(ifaces@.skip(i as int).drop_first() =~= ifaces@.skip(i as int + 1));
        }
        if !iface.loopback {
            match iface.ipv4 {
                Some(ip) => {
                    return ip;
                },
                None => {},
            }
        }
    }
    proof {
        assert(ifaces@.skip(n as int) =~= Seq::<Interface>::empty());
    }
    Ipv4 { a: 0, b: 0, c: 0, d: 0 }
}

/// The ASCII decimal digits of an octet, without leading zeros.
pub open spec fn spec_dec_octet(n: u8) -> Seq<u8> {
    if n < 10 {
        seq![(0x30 + n) as u8]
    } else if n < 100 {
        seq![(0x30 + n / 10) as u8, (0x30 + n % 10) as u8]
    } else {
        seq![(0x30 + n / 100) as u8, (0x30 + (n / 10) % 10) as u8, (0x30 + n % 10) as u8]
    }
}

/// The dotted-decimal ASCII text of an address, as `a.b.c.d`.
pub open spec fn spec_ipv4_text(ip: Ipv4) -> Seq<u8> {
    spec_dec_octet(ip.a) + seq![0x2eu8] + spec_dec_octet(ip.b) + seq![0x2eu8]
        + spec_dec_octet(ip.c) + seq![0x2eu8] + spec_dec_octet(ip.d)
}

/// Appends the decimal digits of one octet.
fn push_octet(out: &mut Vec<u8>, n: u8)
    ensures
        final(out)@ == old(out)@ + spec_dec_octet(n),
{
    if n < 10 {
        out.push(0x30 + n);
    } else if n < 100 {
        out.push(0x30 + n / 10);
        out.push(0x30 + n % 10);
    } else {
        out.push(0x30 + n / 100);
        out.push(0x30 + (n / 10) % 10);
        out.push(0x30 + n % 10);
    }
    proof {
        assert(out@ =~= old(out)@ + spec_dec_octet(n));
    }
}

/// The dotted-decimal ASCII text of an address, for display and logging.
pub fn ipv4_text(ip: &Ipv4) -> (r: Vec<u8>)
    ensures
        r@ == spec_ipv4_text(*ip),
{
    let mut out: Vec<u8> = Vec::new();
    push_octet(&mut out, ip.a);
    out.push(0x2e);
    push_octet(&mut out, ip.b);
    out.push(0x2e);
    push_octet(&mut out, ip.c);
    out.push(0x2e);
    push_octet(&mut out, ip.d);
    proof {
        assert(out@ =~= spec_ipv4_text(*ip));
    }
    out
}

} // verus!
