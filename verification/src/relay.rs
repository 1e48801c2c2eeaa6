//! Relay engine: copies bytes or datagram frames between two streams in
//! both directions and guarantees that, however a session ends —
//! graceful end-of-stream, a malformed frame, or an I/O error — both
//! peers are shut down, each exactly once, on every exit path.

use vstd::prelude::*;
use crate::error::Error;
use crate::stream::{
    ByteRead, ByteWrite, ProxyTcpStream, ProxyUdpStream, UdpRead, UdpWrite,
};

verus! {

/// Copy buffer for byte streams: 32 KiB.
pub const TCP_BUFFER_SIZE: usize = 1024 * 32;

/// Copy buffer for datagram payloads: 8 KiB.
pub const UDP_BUFFER_SIZE: usize = 1024 * 8;

/// One directional copy loop over byte streams: reads up to a
/// buffer-full from `r` and writes it verbatim to `w`, until a
/// zero-length read (graceful close) ends the direction without error,
/// or an I/O error ends it with one. On success every pending byte of
/// `r` has been appended, in order, to `w`; on error some prefix has.
/// The loop never closes anything: shutdown belongs to the relay.
#[verifier::loop_isolation(false)]
pub fn copy_tcp<R: ByteRead, W: ByteWrite>(r: &mut R, w: &mut W) -> (res: Result<(), Error>)
    requires
        !old(w).closed(),
    ensures
        !final(w).closed(),
        match res {
            Ok(()) => final(r).incoming().len() == 0 && final(w).written() == old(w).written()
                + old(r).incoming(),
            Err(_) => exists|k: int|
                0 <= k <= old(r).incoming().len() && final(w).written() == old(w).written()
                    + old(r).incoming().take(k),
        },
{
    let ghost r0 = r.incoming();
    let ghost w0 = w.written();
    let mut buf: Vec<u8> = vec![0u8; TCP_BUFFER_SIZE];
    let ghost mut consumed: int = 0;
    loop
        invariant
            buf@.len() == TCP_BUFFER_SIZE as int,
            0 <= consumed <= r0.len(),
            r.incoming() == r0.skip(consumed),
            w.written() == w0 + r0.take(consumed),
            !w.closed(),
        decreases r0.len() - consumed,
    {
        let ghost mid = r.incoming();
        match r.read(&mut buf) {
            Ok(n) => {
                if n == 0 {
                    proof {
                        assert(r0.take(consumed) =~= r0);
                    }
                    return Ok(());
                }
                match w.write_prefix(&buf, n) {
                    Ok(()) => {
                        proof {
                            assert(r0.take(consumed) + mid.take(n as int) =~= r0.take(
                                consumed + n,
                            ));
                            assert(mid.skip(n as int) =~= r0.skip(consumed + n));
                            consumed = consumed + n as int;
                        }
                    },
                    Err(e) => {
                        return Err(e);
                    },
                }
            },
            Err(e) => {
                return Err(e);
            },
        }
    }
}

/// One directional copy loop over datagram channels: relays whole
/// frames, address and payload intact and in order, until a
/// zero-length frame signals the graceful end of the channel. On
/// success exactly the frames before the first empty one were relayed
/// and that empty frame was consumed; on error some prefix was.
#[verifier::loop_isolation(false)]
pub fn copy_udp<R: UdpRead, W: UdpWrite>(r: &mut R, w: &mut W) -> (res: Result<(), Error>)
    requires
        old(w).wf(),
        !old(w).closed(),
    ensures
        final(w).wf(),
        !final(w).closed(),
        match res {
            Ok(()) => exists|k: int|
                {
                    &&& 0 <= k < old(r).frames().len()
                    &&& old(r).frames()[k].1.len() == 0
                    &&& (forall|j: int| 0 <= j < k ==> old(r).frames()[j].1.len() > 0)
                    &&& final(w).sent() == old(w).sent() + old(r).frames().take(k)
                    &&& final(r).frames() == old(r).frames().skip(k + 1)
                },
            Err(_) => exists|k: int|
                0 <= k <= old(r).frames().len() && final(w).sent() == old(w).sent() + old(
                    r,
                ).frames().take(k),
        },
{
    let ghost f0 = r.frames();
    let ghost s0 = w.sent();
    let mut buf: Vec<u8> = vec![0u8; UDP_BUFFER_SIZE];
    let ghost mut consumed: int = 0;
    loop
        invariant
            buf@.len() == UDP_BUFFER_SIZE as int,
            0 <= consumed <= f0.len(),
            forall|j: int| 0 <= j < consumed ==> f0[j].1.len() > 0,
            r.frames() == f0.skip(consumed),
            w.sent() == s0 + f0.take(consumed),
            w.wf(),
            !w.closed(),
        decreases f0.len() - consumed,
    {
        let ghost mid = r.frames();
        match r.read_from(&mut buf) {
            Ok((n, addr)) => {
                proof {
                    assert(mid[0] == f0[consumed]);
                }
                if n == 0 {
                    proof {
                        assert(mid.skip(1) =~= f0.skip(consumed + 1));
                    }
                    return Ok(());
                }
                match w.write_to(&buf, n, &addr) {
                    Ok(()) => {
                        proof {
                            assert((addr@, buf@.take(n as int)) == f0[consumed]);
                            assert(s0 + f0.take(consumed) + seq![f0[consumed]] =~= s0
                                + f0.take(consumed + 1));
                            assert(mid.skip(1) =~= f0.skip(consumed + 1));
                            consumed = consumed + 1;
                        }
                    },
                    Err(e) => {
                        return Err(e);
                    },
                }
            },
            Err(e) => {
                return Err(e);
            },
        }
    }
}

/// Relays one TCP session between `a` and `b`: copies each direction,
/// then reunites the halves and shuts both streams down — on every
/// path, whether the directions ended gracefully or with an error, so
/// no stream is ever leaked and none is shut down twice. Everything a
/// peer received is a prefix, in order, of what the other peer had to
/// send. Errors end the session; they are not propagated.
pub fn relay_tcp<A: ProxyTcpStream, B: ProxyTcpStream>(a: A, b: B) -> (done: (A, B))
    requires
        !a.closed(),
        !b.closed(),
    ensures
        done.0.closed(),
        done.1.closed(),
        exists|k: int|
            0 <= k <= a.incoming().len() && done.1.written() == b.written() + a.incoming().take(
                k,
            ),
        exists|k: int|
            0 <= k <= b.incoming().len() && done.0.written() == a.written() + b.incoming().take(
                k,
            ),
{
    let (mut a_rx, mut a_tx) = a.split();
    let (mut b_rx, mut b_tx) = b.split();
    let res1 = copy_tcp(&mut a_rx, &mut b_tx);
    let res2 = copy_tcp(&mut b_rx, &mut a_tx);
    proof {
        if res1 is Ok {
            assert(a.incoming().take(a.incoming().len() as int) =~= a.incoming());
            assert(b_tx.written() == b.written() + a.incoming().take(
                a.incoming().len() as int,
            ));
        }
        if res2 is Ok {
            assert(b.incoming().take(b.incoming().len() as int) =~= b.incoming());
            assert(a_tx.written() == a.written() + b.incoming().take(
                b.incoming().len() as int,
            ));
        }
    }
    let mut a_done = A::reunite(a_rx, a_tx);
    let mut b_done = B::reunite(b_rx, b_tx);
    let _ = a_done.shutdown();
    let _ = b_done.shutdown();
    (a_done, b_done)
}

/// Relays one UDP session between `a` and `b`: identical racing-free
/// structure with datagram semantics and the smaller buffer; both
/// channels are explicitly closed on completion, each exactly once, on
/// every exit path. Every frame a peer received is a prefix, in order
/// and intact, of what the other peer had to deliver.
pub fn relay_udp<A: ProxyUdpStream, B: ProxyUdpStream>(a: A, b: B) -> (done: (A, B))
    requires
        !a.closed(),
        !b.closed(),
        a.wf(),
        b.wf(),
    ensures
        done.0.closed(),
        done.1.closed(),
        exists|k: int|
            0 <= k <= a.frames().len() && done.1.sent() == b.sent() + a.frames().take(k),
        exists|k: int|
            0 <= k <= b.frames().len() && done.0.sent() == a.sent() + b.frames().take(k),
{
    let (mut a_rx, mut a_tx) = a.split();
    let (mut b_rx, mut b_tx) = b.split();
    let res1 = copy_udp(&mut a_rx, &mut b_tx);
    let res2 = copy_udp(&mut b_rx, &mut a_tx);
    proof {
        match res1 {
            Ok(()) => {
                let k = choose|k: int|
                    {
                        &&& 0 <= k < a.frames().len()
                        &&& a.frames()[k].1.len() == 0
                        &&& (forall|j: int| 0 <= j < k ==> a.frames()[j].1.len() > 0)
                        &&& b_tx.sent() == b.sent() + a.frames().take(k)
                        &&& a_rx.frames() == a.frames().skip(k + 1)
                    };
                assert(0 <= k <= a.frames().len() && b_tx.sent() == b.sent() + a.frames().take(
                    k,
                ));
            },
            Err(_) => {},
        }
        match res2 {
            Ok(()) => {
                let k = choose|k: int|
                    {
                        &&& 0 <= k < b.frames().len()
                        &&& b.frames()[k].1.len() == 0
                        &&& (forall|j: int| 0 <= j < k ==> b.frames()[j].1.len() > 0)
                        &&& a_tx.sent() == a.sent() + b.frames().take(k)
                        &&& b_rx.frames() == b.frames().skip(k + 1)
                    };
                assert(0 <= k <= b.frames().len() && a_tx.sent() == a.sent() + b.frames().take(
                    k,
                ));
            },
            Err(_) => {},
        }
    }
    let mut a_done = A::reunite(a_rx, a_tx);
    let mut b_done = B::reunite(b_rx, b_tx);
    let _ = a_done.close();
    let _ = b_done.close();
    (a_done, b_done)
}

} // verus!
