//! UDP discovery protocol.
//!
//! A client broadcasts a fixed probe string; the responder answers with a
//! fixed ASCII prefix followed by the decimal TCP port. Any other datagram
//! is ignored. The socket work lives outside this crate: these functions
//! decide whether a datagram is the probe and what the reply bytes are.

use vstd::prelude::*;

verus! {

/// Well-known UDP port the responder listens on.
pub const DISCOVERY_PORT: u16 = 8555;

/// The exact probe datagram, ASCII `CAMSTREAM_DISCOVER`.
pub open spec fn discovery_probe() -> Seq<u8> {
    seq![
        0x43u8, 0x41u8, 0x4du8, 0x53u8, 0x54u8, 0x52u8, 0x45u8, 0x41u8, 0x4du8,
        0x5fu8, 0x44u8, 0x49u8, 0x53u8, 0x43u8, 0x4fu8, 0x56u8, 0x45u8, 0x52u8,
    ]
}

/// The reply prefix, ASCII `CAMSTREAM_SERVER:`.
pub open spec fn response_prefix() -> Seq<u8> {
    seq![
        0x43u8, 0x41u8, 0x4du8, 0x53u8, 0x54u8, 0x52u8, 0x45u8, 0x41u8, 0x4du8,
        0x5fu8, 0x53u8, 0x45u8, 0x52u8, 0x56u8, 0x45u8, 0x52u8, 0x3au8,
    ]
}

/// The shortest decimal digit string of `n`, most significant first.
pub open spec fn dec_digits(n: int) -> Seq<u8>
    decreases n,
{
    if n <= 9 {
        seq![(0x30 + if n >= 0 { n } else { 0 }) as u8]
    } else {
        dec_digits(n / 10).push((0x30 + n % 10) as u8)
    }
}

/// The full reply datagram for a given TCP port.
pub open spec fn discovery_response(port: int) -> Seq<u8> {
    response_prefix() + dec_digits(port)
}

/// Render a port number as decimal ASCII digits.
pub fn u16_decimal(n: u16) -> (r: Vec<u8>)
    ensures
        r@ == dec_digits(n as int),
    decreases n,
{
    if n <= 9 {
        let mut out: Vec<u8> = Vec::new();
        out.push(0x30 + (n as u8));
        proof {
            assert(out@ =~= dec_digits(n as int));
        }
        out
    } else {
        let mut out = u16_decimal(n / 10);
        out.push(0x30 + (n % 10) as u8);
        out
    }
}

/// Compare two byte strings for exact equality.
pub fn bytes_eq(a: &[u8], b: &[u8]) -> (r: bool)
    ensures
        r <==> a@ == b@,
{
    if a.len() != b.len() {
        proof {
            assert(a@.len() != b@.len());
        }
        return false;
    }
    let mut k: usize = 0;
    while k < a.len()
        invariant
            a@.len() == b@.len(),
            k <= a@.len(),
            forall|j: int| 0 <= j < k ==> a@[j] == b@[j],
        decreases a@.len() - k,
    {
        if a[k] != b[k] {
            return false;
        }
        k = k + 1;
    }
    proof {
        assert(a@ =~= b@);
    }
    true
}

/// Answer one discovery datagram: the exact probe string earns a reply of
/// the fixed prefix followed by the decimal TCP port, and every other
/// datagram is ignored.
pub fn handle_discovery_request(msg: &[u8], tcp_port: u16) -> (r: Option<Vec<u8>>)
    ensures
        match r {
            Some(reply) => msg@ == discovery_probe()
                && reply@ == discovery_response(tcp_port as int),
            None => msg@ != discovery_probe(),
        },
{
    let probe: [u8; 18] = [
        0x43, 0x41, 0x4d, 0x53, 0x54, 0x52, 0x45, 0x41, 0x4d,
        0x5f, 0x44, 0x49, 0x53, 0x43, 0x4f, 0x56, 0x45, 0x52,
    ];
    proof {
        assert(probe@ =~= discovery_probe());
    }
    if !bytes_eq(msg, probe.as_slice()) {
        return None;
    }
    let mut reply: Vec<u8> = Vec::new();
    reply.push(0x43);
    reply.push(0x41);
    reply.push(0x4d);
    reply.push(0x53);
    reply.push(0x54);
    reply.push(0x52);
    reply.push(0x45);
    reply.push(0x41);
    reply.push(0x4d);
    reply.push(0x5f);
    reply.push(0x53);
    reply.push(0x45);
    reply.push(0x52);
    reply.push(0x56);
    reply.push(0x45);
    reply.push(0x52);
    reply.push(0x3a);
    proof {
        assert(reply@ =~= response_prefix());
    }
    let digits = u16_decimal(tcp_port);
    let mut out = reply;
    crate::scan::push_all(&mut out, digits.as_slice());
    Some(out)
}

} // verus!
