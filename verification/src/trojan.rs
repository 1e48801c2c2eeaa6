//! UDP channel adapter: wraps the halves of a byte stream to expose
//! datagram semantics on top of the framing codec. A frame is read
//! atomically or the call fails; a frame is written whole; the stream
//! of frames a reader yields is exactly what the codec decodes from the
//! bytes of the underlying stream.

use vstd::prelude::*;
use crate::address::{Address, AddressV};
use crate::codec::{
    spec_parse_addr, spec_decode_frame, spec_frames, spec_encode_frames, spec_encode_frame,
    frame_wf, lemma_decode_bounds, lemma_encode_frames_snoc, lemma_frames_round_trip,
    encode_frame, ATYP_IPV4, ATYP_DOMAIN, ATYP_IPV6, SEP_CR, SEP_LF,
};
use crate::error::{Error, new_error};
use crate::stream::{ByteRead, ByteWrite, ProxyTcpStream, ProxyUdpStream, UdpRead, UdpWrite};

verus! {

/// Reads exactly `n` bytes from `r`, failing on a stream that ends
/// first.
#[verifier::loop_isolation(false)]
fn read_exact<T: ByteRead>(r: &mut T, n: usize) -> (res: Result<Vec<u8>, Error>)
    ensures
        match res {
            Ok(v) => {
                &&& v@.len() == n
                &&& old(r).incoming().len() >= n
                &&& v@ == old(r).incoming().take(n as int)
                &&& final(r).incoming() == old(r).incoming().skip(n as int)
            },
            Err(_) => true,
        },
{
    let ghost b0 = r.incoming();
    let mut out: Vec<u8> = Vec::new();
    if n == 0 {
        assert(out@ =~= b0.take(0));
        assert(r.incoming() =~= b0.skip(0));
        return Ok(out);
    }
    while out.len() < n
        invariant
            out@.len() <= n,
            b0.len() >= out@.len(),
            out@ == b0.take(out@.len() as int),
            r.incoming() == b0.skip(out@.len() as int),
        decreases n - out.len(),
    {
        let want = n - out.len();
        let mut buf: Vec<u8> = vec![0u8; want];
        let ghost pre = out@;
        let ghost mid = r.incoming();
        match r.read(&mut buf) {
            Ok(m) => {
                if m == 0 {
                    return Err(new_error("stream ended inside a datagram frame"));
                }
                buf.truncate(m);
                crate::codec::push_bytes(&mut out, &buf);
                proof {
                    assert(buf@ == mid.take(m as int));
                    assert(pre + buf@ =~= b0.take(pre.len() + m as int));
                    assert(mid.skip(m as int) =~= b0.skip(pre.len() + m as int));
                }
            },
            Err(e) => {
                return Err(e);
            },
        }
    }
    assert(out@.len() == n);
    Ok(out)
}

/// Reads and parses the address block at the front of `r`, consuming
/// exactly the block on success.
#[verifier::loop_isolation(false)]
fn read_addr<T: ByteRead>(r: &mut T) -> (res: Result<Address, Error>)
    ensures
        match res {
            Ok(a) => {
                &&& a@.wf()
                &&& spec_parse_addr(old(r).incoming()) matches Some((av, k)) && av == a@
                    && final(r).incoming() == old(r).incoming().skip(k)
            },
            Err(_) => true,
        },
{
    let ghost b0 = r.incoming();
    let tag_b = match read_exact(r, 1) {
        Ok(v) => v,
        Err(e) => {
            return Err(e);
        },
    };
    let tag = tag_b[0];
    assert(tag == b0[0]);
    if tag == ATYP_IPV4 {
        let ip = match read_exact(r, 4) {
            Ok(v) => v,
            Err(e) => {
                return Err(e);
            },
        };
        let pb = match read_exact(r, 2) {
            Ok(v) => v,
            Err(e) => {
                return Err(e);
            },
        };
        let port = pb[0] as u16 * 256 + pb[1] as u16;
        let a = Address::Ipv4 { ip, port };
        proof {
            assert(b0.skip(1).skip(4) =~= b0.skip(5));
            assert(b0.len() >= 7);
            assert(a@->Ipv4_ip =~= b0.subrange(1, 5));
            assert(pb@[0] == b0[5] && pb@[1] == b0[6]);
            assert(b0.skip(5).skip(2) =~= b0.skip(7));
            assert(r.incoming() == b0.skip(7));
        }
        Ok(a)
    } else if tag == ATYP_DOMAIN {
        let len_b = match read_exact(r, 1) {
            Ok(v) => v,
            Err(e) => {
                return Err(e);
            },
        };
        let m = len_b[0];
        let name = match read_exact(r, m as usize) {
            Ok(v) => v,
            Err(e) => {
                return Err(e);
            },
        };
        let pb = match read_exact(r, 2) {
            Ok(v) => v,
            Err(e) => {
                return Err(e);
            },
        };
        let port = pb[0] as u16 * 256 + pb[1] as u16;
        let a = Address::Domain { name, port };
        proof {
            let mi = m as int;
            assert(len_b@[0] == b0[1]);
            assert(b0.skip(1).skip(1) =~= b0.skip(2));
            assert(b0.skip(2).skip(mi) =~= b0.skip(2 + mi));
            assert(b0.len() >= 4 + mi);
            assert(a@->Domain_name =~= b0.subrange(2, 2 + mi));
            assert(pb@[0] == b0[2 + mi] && pb@[1] == b0[3 + mi]);
            assert(b0.skip(2 + mi).skip(2) =~= b0.skip(4 + mi));
            assert(r.incoming() == b0.skip(4 + mi));
        }
        Ok(a)
    } else if tag == ATYP_IPV6 {
        let ip = match read_exact(r, 16) {
            Ok(v) => v,
            Err(e) => {
                return Err(e);
            },
        };
        let pb = match read_exact(r, 2) {
            Ok(v) => v,
            Err(e) => {
                return Err(e);
            },
        };
        let port = pb[0] as u16 * 256 + pb[1] as u16;
        let a = Address::Ipv6 { ip, port };
        proof {
            assert(b0.skip(1).skip(16) =~= b0.skip(17));
            assert(b0.len() >= 19);
            assert(a@->Ipv6_ip =~= b0.subrange(1, 17));
            assert(pb@[0] == b0[17] && pb@[1] == b0[18]);
            assert(b0.skip(17).skip(2) =~= b0.skip(19));
            assert(r.incoming() == b0.skip(19));
        }
        Ok(a)
    } else {
        Err(new_error("unknown address type in datagram frame"))
    }
}

/// Copy of the first `n` bytes of `data`.
#[verifier::loop_isolation(false)]
fn dup_prefix(data: &Vec<u8>, n: usize) -> (r: Vec<u8>)
    requires
        n <= data.len(),
    ensures
        r@ == data@.take(n as int),
{
    let mut out: Vec<u8> = Vec::new();
    let mut i: usize = 0;
    while i < n
        invariant
            0 <= i <= n,
            out@ == data@.take(i as int),
        decreases n - i,
    {
        out.push(data[i]);
        assert(data@.take(i as int).push(data@[i as int]) =~= data@.take(i as int + 1));
        i += 1;
    }
    out
}

/// Datagram reader over the read half of a byte stream: decodes one
/// frame per call.
pub struct TrojanUdpReader<T> {
    inner: T,
}

impl<T: ByteRead> TrojanUdpReader<T> {
    /// Wraps a readable half.
    pub fn new(inner: T) -> (r: Self)
        ensures
            r.frames() == spec_frames(inner.incoming()),
    {
        TrojanUdpReader { inner }
    }

    /// The underlying half, back out.
    pub fn into_inner(self) -> (r: T)
        ensures
            self.frames() == spec_frames(r.incoming()),
    {
        self.inner
    }
}

impl<T: ByteRead> UdpRead for TrojanUdpReader<T> {
    /// The frames still pending are exactly what the codec decodes
    /// from the bytes still pending on the underlying stream.
    closed spec fn frames(&self) -> Seq<(AddressV, Seq<u8>)> {
        spec_frames(self.inner.incoming())
    }

    #[verifier::loop_isolation(false)]
    fn read_from(&mut self, buf: &mut Vec<u8>) -> (res: Result<(usize, Address), Error>) {
        let ghost b0 = self.inner.incoming();
        let addr = match read_addr(&mut self.inner) {
            Ok(a) => a,
            Err(e) => {
                return Err(e);
            },
        };
        let ghost k = spec_parse_addr(b0)->Some_0.1;
        let ghost rrest = b0.skip(k);
        let lb = match read_exact(&mut self.inner, 2) {
            Ok(v) => v,
            Err(e) => {
                return Err(e);
            },
        };
        let sep = match read_exact(&mut self.inner, 2) {
            Ok(v) => v,
            Err(e) => {
                return Err(e);
            },
        };
        if sep[0] != SEP_CR || sep[1] != SEP_LF {
            return Err(new_error("malformed datagram frame separator"));
        }
        let plen = lb[0] as u16 * 256 + lb[1] as u16;
        let n = plen as usize;
        proof {
            assert(lb@[0] == rrest[0] && lb@[1] == rrest[1]);
            assert(rrest.skip(2).skip(2) =~= rrest.skip(4));
            assert(sep@[0] == rrest[2] && sep@[1] == rrest[3]);
            assert(self.inner.incoming() == rrest.skip(4));
        }
        if n > buf.len() {
            return Err(new_error("datagram payload larger than the buffer"));
        }
        let ghost after_header = self.inner.incoming();
        let payload = match read_exact(&mut self.inner, n) {
            Ok(v) => v,
            Err(e) => {
                return Err(e);
            },
        };
        proof {
            assert(payload@ =~= rrest.subrange(4, 4 + n as int));
            assert(rrest.len() >= 4 + n);
            assert(spec_decode_frame(b0) == Some(
                (addr@, payload@, k + 4 + n as int),
            ));
            assert(rrest.skip(4).skip(n as int) =~= b0.skip(k + 4 + n as int));
            lemma_decode_bounds(b0);
            assert(spec_frames(b0) == seq![(addr@, payload@)] + spec_frames(
                b0.skip(k + 4 + n as int),
            ));
        }
        let mut i: usize = 0;
        while i < n
            invariant
                0 <= i <= n,
                n <= buf@.len(),
                n == payload@.len(),
                buf@.len() == old(buf)@.len(),
                forall|j: int| 0 <= j < i ==> buf@[j] == payload@[j],
                forall|j: int| i <= j < buf@.len() ==> buf@[j] == old(buf)@[j],
            decreases n - i,
        {
            let b = payload[i];
            buf[i] = b;
            i += 1;
        }
        proof {
            assert(buf@.take(n as int) =~= payload@);
            assert(buf@.skip(n as int) =~= old(buf)@.skip(n as int));
            assert((seq![(addr@, payload@)] + spec_frames(b0.skip(k + 4 + n as int))).skip(1)
                =~= spec_frames(b0.skip(k + 4 + n as int)));
        }
        Ok((n, addr))
    }
}

/// Datagram writer over the write half of a byte stream: encodes one
/// frame per call. The bytes handed to the underlying stream are, from
/// the point this writer took it over, exactly the encodings of the
/// frames sent so far, back to back.
pub struct TrojanUdpWriter<T> {
    inner: T,
    base: Ghost<Seq<u8>>,
    frames_sent: Ghost<Seq<(AddressV, Seq<u8>)>>,
}

impl<T: ByteWrite> TrojanUdpWriter<T> {
    /// Bytes the underlying stream had already accepted when this
    /// writer took it over.
    pub closed spec fn base(&self) -> Seq<u8> {
        self.base@
    }

    /// Wraps a writable half.
    pub fn new(inner: T) -> (r: Self)
        requires
            !inner.closed(),
        ensures
            r.wf(),
            !r.closed(),
            r.sent() == Seq::<(AddressV, Seq<u8>)>::empty(),
            r.base() == inner.written(),
    {
        let r = TrojanUdpWriter {
            base: Ghost(inner.written()),
            frames_sent: Ghost(Seq::empty()),
            inner,
        };
        proof {
            assert(spec_encode_frames(r.frames_sent@) =~= Seq::<u8>::empty());
            assert(r.inner.written() =~= r.base@ + spec_encode_frames(r.frames_sent@));
        }
        r
    }

    /// The underlying half, back out: when the writer is well-formed,
    /// the half holds its original bytes followed by exactly the
    /// encodings of the frames sent through the writer, back to back.
    pub fn into_inner(self) -> (r: T)
        ensures
            r.closed() == self.closed(),
            self.wf() ==> r.written() == self.base() + spec_encode_frames(self.sent()),
    {
        self.inner
    }

    /// Bytes the underlying stream has accepted.
    pub closed spec fn inner_written(&self) -> Seq<u8> {
        self.inner.written()
    }
}

impl<T: ByteWrite> UdpWrite for TrojanUdpWriter<T> {
    closed spec fn sent(&self) -> Seq<(AddressV, Seq<u8>)> {
        self.frames_sent@
    }

    closed spec fn closed(&self) -> bool {
        self.inner.closed()
    }

    /// The underlying stream holds its original bytes followed by
    /// exactly the encodings of the frames sent so far, every one of
    /// them well-formed.
    closed spec fn wf(&self) -> bool {
        &&& self.inner.written() == self.base@ + spec_encode_frames(self.frames_sent@)
        &&& forall|i: int|
            0 <= i < self.frames_sent@.len() ==> #[trigger] frame_wf(self.frames_sent@[i])
    }

    fn write_to(&mut self, data: &Vec<u8>, n: usize, addr: &Address) -> (res: Result<
        (),
        Error,
    >) {
        let payload = dup_prefix(data, n);
        let frame = encode_frame(addr, &payload);
        let len = frame.len();
        match self.inner.write_prefix(&frame, len) {
            Ok(()) => {
                proof {
                    let f = (addr@, data@.take(n as int));
                    lemma_encode_frames_snoc(self.frames_sent@, f);
                    assert(frame@.take(len as int) =~= frame@);
                    assert(self.frames_sent@.push(f) =~= self.frames_sent@ + seq![f]);
                }
                let ghost newf = self.frames_sent@ + seq![(addr@, data@.take(n as int))];
                self.frames_sent = Ghost(newf);
                proof {
                    assert(self.inner.written() =~= self.base@ + spec_encode_frames(
                        self.frames_sent@,
                    ));
                }
                Ok(())
            },
            Err(e) => Err(e),
        }
    }
}

/// Writing frames and reading them back agree: the frames a reader
/// decodes from the bytes a fresh writer produced are exactly the
/// frames that were sent through the writer, address and payload
/// intact and in order.
pub proof fn lemma_writer_reader_agree<T: ByteWrite>(w: TrojanUdpWriter<T>)
    requires
        w.wf(),
        w.base() == Seq::<u8>::empty(),
    ensures
        spec_frames(w.inner_written()) == w.sent(),
{
    lemma_frames_round_trip(w.sent());
    assert(Seq::<u8>::empty() + spec_encode_frames(w.sent()) =~= spec_encode_frames(w.sent()));
}

/// A UDP-capable stream over any TCP-capable stream: splits the byte
/// stream once, frames datagrams over its halves, and closes by
/// shutting the underlying stream down.
pub struct TrojanUdpStream<T: ProxyTcpStream> {
    reader: TrojanUdpReader<T::ReadHalf>,
    writer: TrojanUdpWriter<T::WriteHalf>,
}

impl<T: ProxyTcpStream> TrojanUdpStream<T> {
    /// Wraps a byte stream into a datagram channel.
    pub fn new(inner: T) -> (s: Self)
        requires
            !inner.closed(),
        ensures
            s.frames() == spec_frames(inner.incoming()),
            s.sent() == Seq::<(AddressV, Seq<u8>)>::empty(),
            !s.closed(),
            s.wf(),
    {
        let (rh, wh) = inner.split();
        let reader = TrojanUdpReader::new(rh);
        let writer = TrojanUdpWriter::new(wh);
        TrojanUdpStream { reader, writer }
    }
}

impl<T: ProxyTcpStream> ProxyUdpStream for TrojanUdpStream<T> {
    type R = TrojanUdpReader<T::ReadHalf>;

    type W = TrojanUdpWriter<T::WriteHalf>;

    closed spec fn frames(&self) -> Seq<(AddressV, Seq<u8>)> {
        self.reader.frames()
    }

    closed spec fn sent(&self) -> Seq<(AddressV, Seq<u8>)> {
        self.writer.sent()
    }

    closed spec fn closed(&self) -> bool {
        self.writer.closed()
    }

    closed spec fn wf(&self) -> bool {
        self.writer.wf()
    }

    fn split(self) -> (halves: (Self::R, Self::W)) {
        (self.reader, self.writer)
    }

    fn reunite(r: Self::R, w: Self::W) -> (s: Self) {
        TrojanUdpStream { reader: r, writer: w }
    }

    fn close(&mut self) -> (res: Result<(), Error>) {
        self.writer.inner.shutdown()
    }
}

} // verus!
