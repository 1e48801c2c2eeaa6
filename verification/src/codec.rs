//! Datagram framing codec: one UDP packet rides a byte stream as
//! `[address-tag][address][port][payload-length][separator][payload]`,
//! all integers big-endian. The separator is the two-byte line
//! terminator the wrapped protocol already uses as a framing guard.

use vstd::prelude::*;
use crate::address::{Address, AddressV};

verus! {

/// Address-type tag of a 4-byte IPv4 block.
pub const ATYP_IPV4: u8 = 1;

/// Address-type tag of a length-prefixed domain name.
pub const ATYP_DOMAIN: u8 = 3;

/// Address-type tag of a 16-byte IPv6 block.
pub const ATYP_IPV6: u8 = 4;

/// First separator byte (carriage return).
pub const SEP_CR: u8 = 13;

/// Second separator byte (line feed).
pub const SEP_LF: u8 = 10;

/// Largest payload one frame can carry: its length field is two bytes.
pub const MAX_PAYLOAD: usize = 65535;

/// High byte of a 16-bit integer written big-endian.
pub open spec fn u16_hi(x: u16) -> u8 {
    (x / 256) as u8
}

/// Low byte of a 16-bit integer written big-endian.
pub open spec fn u16_lo(x: u16) -> u8 {
    (x % 256) as u8
}

/// The 16-bit integer read back from two big-endian bytes.
pub open spec fn be16(hi: u8, lo: u8) -> u16 {
    (hi as int * 256 + lo as int) as u16
}

pub proof fn lemma_be16_roundtrip(x: u16)
    ensures
        be16(u16_hi(x), u16_lo(x)) == x,
{
    assert(x as int == (x as int / 256) * 256 + x as int % 256) by {
        vstd::arithmetic::div_mod::lemma_fundamental_div_mod(x as int, 256);
    }
}

/// Wire form of one address: tag, then the address value, then the port.
pub open spec fn spec_encode_addr(a: AddressV) -> Seq<u8> {
    match a {
        AddressV::Domain { name, port } => seq![ATYP_DOMAIN, name.len() as u8] + name + seq![
            u16_hi(port),
            u16_lo(port),
        ],
        AddressV::Ipv4 { ip, port } => seq![ATYP_IPV4] + ip + seq![u16_hi(port), u16_lo(port)],
        AddressV::Ipv6 { ip, port } => seq![ATYP_IPV6] + ip + seq![u16_hi(port), u16_lo(port)],
    }
}

/// Wire form of one frame header: address block, payload length,
/// separator.
pub open spec fn spec_encode_header(a: AddressV, payload_len: u16) -> Seq<u8> {
    spec_encode_addr(a) + seq![u16_hi(payload_len), u16_lo(payload_len), SEP_CR, SEP_LF]
}

/// Wire form of one whole frame. Callers never lie about the length:
/// the length field always equals the actual payload size.
pub open spec fn spec_encode_frame(a: AddressV, payload: Seq<u8>) -> Seq<u8> {
    spec_encode_header(a, payload.len() as u16) + payload
}

/// Parses the address block at the front of `b`: the address and how
/// many bytes it occupied, or `None` when the tag is unrecognized or
/// the bytes run out.
pub open spec fn spec_parse_addr(b: Seq<u8>) -> Option<(AddressV, int)> {
    if b.len() < 1 {
        None
    } else if b[0] == ATYP_IPV4 {
        if b.len() < 7 {
            None
        } else {
            Some((AddressV::Ipv4 { ip: b.subrange(1, 5), port: be16(b[5], b[6]) }, 7))
        }
    } else if b[0] == ATYP_DOMAIN {
        if b.len() < 2 {
            None
        } else {
            let n = b[1] as int;
            if b.len() < 4 + n {
                None
            } else {
                Some(
                    (
                        AddressV::Domain {
                            name: b.subrange(2, 2 + n),
                            port: be16(b[2 + n], b[3 + n]),
                        },
                        4 + n,
                    ),
                )
            }
        }
    } else if b[0] == ATYP_IPV6 {
        if b.len() < 19 {
            None
        } else {
            Some((AddressV::Ipv6 { ip: b.subrange(1, 17), port: be16(b[17], b[18]) }, 19))
        }
    } else {
        None
    }
}

/// Decodes the frame at the front of `b`: the destination address, the
/// payload, and how many bytes the whole frame occupied. `None` when
/// the address block is malformed, the separator is wrong, or `b` ends
/// before the declared payload length is satisfied — a decoder never
/// returns partial data.
pub open spec fn spec_decode_frame(b: Seq<u8>) -> Option<(AddressV, Seq<u8>, int)> {
    match spec_parse_addr(b) {
        None => None,
        Some((a, k)) => {
            let r = b.skip(k);
            if r.len() < 4 {
                None
            } else if r[2] != SEP_CR || r[3] != SEP_LF {
                None
            } else {
                let n = be16(r[0], r[1]) as int;
                if r.len() < 4 + n {
                    None
                } else {
                    Some((a, r.subrange(4, 4 + n), k + 4 + n))
                }
            }
        },
    }
}

/// A decoded frame consumes at least its header and at most all of `b`,
/// and its address is well-formed.
pub proof fn lemma_decode_bounds(b: Seq<u8>)
    requires
        spec_decode_frame(b) is Some,
    ensures
        ({
            let (a, p, k) = spec_decode_frame(b)->Some_0;
            &&& 0 < k <= b.len()
            &&& p.len() <= 65535
            &&& a.wf()
        }),
{
    let (a, k0) = spec_parse_addr(b)->Some_0;
    assert(1 <= k0 <= b.len());
}

/// The byte stream of a sequence of frames, written back to back.
pub open spec fn spec_encode_frames(fs: Seq<(AddressV, Seq<u8>)>) -> Seq<u8>
    decreases fs.len(),
{
    if fs.len() == 0 {
        seq![]
    } else {
        spec_encode_frame(fs[0].0, fs[0].1) + spec_encode_frames(fs.skip(1))
    }
}

/// Encoding frames back to back commutes with appending one frame.
pub proof fn lemma_encode_frames_snoc(fs: Seq<(AddressV, Seq<u8>)>, f: (AddressV, Seq<u8>))
    ensures
        spec_encode_frames(fs.push(f)) == spec_encode_frames(fs) + spec_encode_frame(f.0, f.1),
    decreases fs.len(),
{
    let whole = fs.push(f);
    let enc_f = spec_encode_frame(f.0, f.1);
    assert(spec_encode_frames(whole) == spec_encode_frame(whole[0].0, whole[0].1)
        + spec_encode_frames(whole.skip(1)));
    if fs.len() == 0 {
        assert(whole[0] == f);
        assert(whole.skip(1) =~= Seq::<(AddressV, Seq<u8>)>::empty());
        assert(spec_encode_frames(Seq::<(AddressV, Seq<u8>)>::empty()) == Seq::<u8>::empty());
        assert(spec_encode_frames(whole) =~= enc_f);
        assert(Seq::<u8>::empty() + enc_f =~= enc_f);
    } else {
        assert(whole[0] == fs[0]);
        let enc_h = spec_encode_frame(fs[0].0, fs[0].1);
        assert(whole.skip(1) =~= fs.skip(1).push(f));
        lemma_encode_frames_snoc(fs.skip(1), f);
        assert(spec_encode_frames(whole.skip(1)) == spec_encode_frames(fs.skip(1)) + enc_f);
        assert(enc_h + (spec_encode_frames(fs.skip(1)) + enc_f) =~= (enc_h
            + spec_encode_frames(fs.skip(1))) + enc_f);
        assert(spec_encode_frames(fs) == enc_h + spec_encode_frames(fs.skip(1)));
    }
}

/// The frames sitting at the front of a byte stream: frames are peeled
/// off while they decode; the first malformed or truncated region ends
/// the sequence.
pub open spec fn spec_frames(b: Seq<u8>) -> Seq<(AddressV, Seq<u8>)>
    decreases b.len(),
{
    match spec_decode_frame(b) {
        Some((a, p, k)) => if 0 < k <= b.len() {
            seq![(a, p)] + spec_frames(b.skip(k))
        } else {
            seq![]
        },
        None => seq![],
    }
}

/// Parsing the front of an encoded address block, whatever follows it,
/// recovers the address.
pub proof fn lemma_parse_addr_of_encoded(a: AddressV, rest: Seq<u8>)
    requires
        a.wf(),
    ensures
        spec_parse_addr(spec_encode_addr(a) + rest) == Some(
            (a, spec_encode_addr(a).len() as int),
        ),
{
    let e = spec_encode_addr(a);
    let b = e + rest;
    match a {
        AddressV::Domain { name, port } => {
            let n = name.len() as int;
            assert(b[0] == ATYP_DOMAIN);
            assert(b[1] == n as u8);
            assert(b[1] as int == n);
            assert(b.len() >= 4 + n);
            assert(b.subrange(2, 2 + n) =~= name);
            assert(b[2 + n] == u16_hi(port));
            assert(b[3 + n] == u16_lo(port));
            lemma_be16_roundtrip(port);
            assert(spec_parse_addr(b) == Some((a, 4 + n)));
            assert(e.len() == 4 + n);
        },
        AddressV::Ipv4 { ip, port } => {
            assert(b[0] == ATYP_IPV4);
            assert(b.len() >= 7);
            assert(b.subrange(1, 5) =~= ip);
            assert(b[5] == u16_hi(port));
            assert(b[6] == u16_lo(port));
            lemma_be16_roundtrip(port);
            assert(spec_parse_addr(b) == Some((a, 7int)));
        },
        AddressV::Ipv6 { ip, port } => {
            assert(b[0] == ATYP_IPV6);
            assert(b.len() >= 19);
            assert(b.subrange(1, 17) =~= ip);
            assert(b[17] == u16_hi(port));
            assert(b[18] == u16_lo(port));
            lemma_be16_roundtrip(port);
            assert(spec_parse_addr(b) == Some((a, 19int)));
        },
    }
}

/// Framing round-trip: decoding an encoded frame, whatever follows it
/// on the stream, yields exactly the address and payload that were
/// encoded, and consumes exactly the frame.
pub proof fn lemma_frame_round_trip(a: AddressV, payload: Seq<u8>, rest: Seq<u8>)
    requires
        a.wf(),
        payload.len() <= 65535,
    ensures
        spec_decode_frame(spec_encode_frame(a, payload) + rest) == Some(
            (a, payload, spec_encode_frame(a, payload).len() as int),
        ),
{
    let ea = spec_encode_addr(a);
    let k = ea.len() as int;
    let plen = payload.len() as u16;
    let tail = seq![u16_hi(plen), u16_lo(plen), SEP_CR, SEP_LF] + payload + rest;
    let b = spec_encode_frame(a, payload) + rest;
    assert(b =~= ea + tail);
    lemma_parse_addr_of_encoded(a, tail);
    assert(spec_parse_addr(b) == Some((a, k)));
    let r = b.skip(k);
    assert(r =~= tail);
    assert(r[0] == u16_hi(plen) && r[1] == u16_lo(plen));
    assert(r[2] == SEP_CR && r[3] == SEP_LF);
    lemma_be16_roundtrip(plen);
    assert(be16(r[0], r[1]) == plen);
    assert(plen as int == payload.len());
    assert(r.len() >= 4 + payload.len());
    assert(r.subrange(4, 4 + payload.len() as int) =~= payload);
    assert(spec_encode_frame(a, payload).len() == k + 4 + payload.len());
}

/// A frame that can be written on the wire: its address fits the
/// address block and its payload fits the two-byte length field.
pub open spec fn frame_wf(f: (AddressV, Seq<u8>)) -> bool {
    f.0.wf() && f.1.len() <= 65535
}

/// An encoded frame at the front of a byte stream is read back as
/// exactly that frame, followed by whatever frames the rest holds.
pub proof fn lemma_frames_of_encoded(a: AddressV, payload: Seq<u8>, rest: Seq<u8>)
    requires
        a.wf(),
        payload.len() <= 65535,
    ensures
        spec_frames(spec_encode_frame(a, payload) + rest) == seq![(a, payload)] + spec_frames(
            rest,
        ),
{
    let e = spec_encode_frame(a, payload);
    let b = e + rest;
    lemma_frame_round_trip(a, payload, rest);
    lemma_decode_bounds(b);
    assert(b.skip(e.len() as int) =~= rest);
}

/// Channel-level framing round-trip: a stream holding nothing but the
/// encodings of well-formed frames, back to back, is read back as
/// exactly those frames, address and payload intact and in order.
pub proof fn lemma_frames_round_trip(fs: Seq<(AddressV, Seq<u8>)>)
    requires
        forall|i: int| 0 <= i < fs.len() ==> #[trigger] frame_wf(fs[i]),
    ensures
        spec_frames(spec_encode_frames(fs)) == fs,
    decreases fs.len(),
{
    if fs.len() == 0 {
        assert(spec_frames(spec_encode_frames(fs)) =~= fs);
    } else {
        assert(frame_wf(fs[0]));
        let rest = spec_encode_frames(fs.skip(1));
        lemma_frames_of_encoded(fs[0].0, fs[0].1, rest);
        lemma_frames_round_trip(fs.skip(1));
        assert(seq![fs[0]] + fs.skip(1) =~= fs);
    }
}

/// Truncation detection: a strict prefix of an encoded frame never
/// decodes — the decoder fails rather than silently return partial
/// data.
pub proof fn lemma_truncation_detected(a: AddressV, payload: Seq<u8>, n: int)
    requires
        a.wf(),
        payload.len() <= 65535,
        0 <= n < spec_encode_frame(a, payload).len(),
    ensures
        spec_decode_frame(spec_encode_frame(a, payload).take(n)) is None,
{
    let ea = spec_encode_addr(a);
    let k = ea.len() as int;
    let plen = payload.len() as u16;
    let tail = seq![u16_hi(plen), u16_lo(plen), SEP_CR, SEP_LF] + payload;
    let e = spec_encode_frame(a, payload);
    assert(e =~= ea + tail);
    let t = e.take(n);
    if n < k {
        // The cut falls inside the address block: its length checks fail.
        assert(t =~= ea.take(n));
        match a {
            AddressV::Domain { name, port } => {
                let m = name.len() as int;
                if n >= 1 {
                    assert(t[0] == ATYP_DOMAIN);
                    if n >= 2 {
                        assert(t[1] as int == m);
                        assert(t.len() < 4 + m);
                    }
                }
                assert(spec_parse_addr(t) is None);
            },
            AddressV::Ipv4 { ip, port } => {
                if n >= 1 {
                    assert(t[0] == ATYP_IPV4);
                }
                assert(t.len() < 7);
                assert(spec_parse_addr(t) is None);
            },
            AddressV::Ipv6 { ip, port } => {
                if n >= 1 {
                    assert(t[0] == ATYP_IPV6);
                }
                assert(t.len() < 19);
                assert(spec_parse_addr(t) is None);
            },
        }
    } else {
        // The address block is whole; the cut falls in the header tail
        // or the payload, so the remainder is shorter than the declared
        // frame and the length check fails.
        assert(t =~= ea + tail.take(n - k));
        lemma_parse_addr_of_encoded(a, tail.take(n - k));
        assert(spec_parse_addr(t) == Some((a, k)));
        let r = t.skip(k);
        assert(r =~= tail.take(n - k));
        if n - k >= 4 {
            assert(r[0] == u16_hi(plen) && r[1] == u16_lo(plen));
            assert(r[2] == SEP_CR && r[3] == SEP_LF);
            lemma_be16_roundtrip(plen);
            assert(be16(r[0], r[1]) as int == payload.len());
            assert(r.len() == n - k < 4 + payload.len());
        }
        assert(spec_decode_frame(t) is None);
    }
}

/// Appends every byte of `data` to `out`, in order.
pub fn push_bytes(out: &mut Vec<u8>, data: &Vec<u8>)
    ensures
        final(out)@ == old(out)@ + data@,
{
    let n = data.len();
    let mut i: usize = 0;
    while i < n
        invariant
            n == data.len(),
            0 <= i <= n,
            out@ == old(out)@ + data@.take(i as int),
        decreases n - i,
    {
        out.push(data[i]);
        assert(old(out)@ + data@.take(i as int) + seq![data@[i as int]] =~= old(out)@
            + data@.take(i as int + 1));
        i += 1;
    }
    assert(data@.take(n as int) =~= data@);
}

/// Exact copy of a byte vector.
pub fn dup_bytes(v: &Vec<u8>) -> (r: Vec<u8>)
    ensures
        r@ == v@,
{
    let mut out: Vec<u8> = Vec::new();
    push_bytes(&mut out, v);
    assert(out@ =~= v@);
    out
}

impl Address {
    /// An identical copy of this address.
    pub fn duplicate(&self) -> (r: Address)
        ensures
            r@ == self@,
    {
        match self {
            Address::Domain { name, port } => Address::Domain {
                name: dup_bytes(name),
                port: *port,
            },
            Address::Ipv4 { ip, port } => Address::Ipv4 { ip: dup_bytes(ip), port: *port },
            Address::Ipv6 { ip, port } => Address::Ipv6 { ip: dup_bytes(ip), port: *port },
        }
    }
}

/// Appends the wire form of `addr` to `out`.
fn encode_addr_into(out: &mut Vec<u8>, addr: &Address)
    requires
        addr@.wf(),
    ensures
        final(out)@ == old(out)@ + spec_encode_addr(addr@),
{
    match addr {
        Address::Domain { name, port } => {
            out.push(ATYP_DOMAIN);
            out.push(name.len() as u8);
            push_bytes(out, name);
            out.push((*port / 256) as u8);
            out.push((*port % 256) as u8);
        },
        Address::Ipv4 { ip, port } => {
            out.push(ATYP_IPV4);
            push_bytes(out, ip);
            out.push((*port / 256) as u8);
            out.push((*port % 256) as u8);
        },
        Address::Ipv6 { ip, port } => {
            out.push(ATYP_IPV6);
            push_bytes(out, ip);
            out.push((*port / 256) as u8);
            out.push((*port % 256) as u8);
        },
    }
    assert(out@ =~= old(out)@ + spec_encode_addr(addr@));
}

/// One frame header, built per datagram and never persisted: the
/// destination address and the exact payload length.
pub struct UdpHeader {
    pub address: Address,
    pub payload_len: u16,
}

impl UdpHeader {
    /// Builds the header for one datagram aimed at `address` whose
    /// payload is exactly `payload_len` bytes long.
    pub fn new(address: &Address, payload_len: u16) -> (r: UdpHeader)
        ensures
            r.address@ == address@,
            r.payload_len == payload_len,
    {
        UdpHeader { address: address.duplicate(), payload_len }
    }

    /// Wire form of this header.
    pub fn encode(&self) -> (r: Vec<u8>)
        requires
            self.address@.wf(),
        ensures
            r@ == spec_encode_header(self.address@, self.payload_len),
    {
        let mut out: Vec<u8> = Vec::new();
        encode_addr_into(&mut out, &self.address);
        out.push((self.payload_len / 256) as u8);
        out.push((self.payload_len % 256) as u8);
        out.push(SEP_CR);
        out.push(SEP_LF);
        assert(out@ =~= spec_encode_header(self.address@, self.payload_len));
        out
    }
}

/// Encodes one whole frame: header followed by exactly the payload.
pub fn encode_frame(addr: &Address, payload: &Vec<u8>) -> (r: Vec<u8>)
    requires
        addr@.wf(),
        payload.len() <= MAX_PAYLOAD,
    ensures
        r@ == spec_encode_frame(addr@, payload@),
{
    let header = UdpHeader::new(addr, payload.len() as u16);
    let mut out = header.encode();
    push_bytes(&mut out, payload);
    assert(out@ =~= spec_encode_frame(addr@, payload@));
    out
}

} // verus!
