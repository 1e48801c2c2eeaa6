//! Capability traits every transport layer implements: byte-stream
//! halves, splittable TCP-capable streams, datagram-capable streams,
//! inbound acceptors and outbound connectors. Concrete transports (TLS,
//! WebSocket, SOCKS5, transparent redirect) are external collaborators
//! that plug in by implementing exactly these shapes.
//!
//! Each trait carries a mathematical model: the bytes or frames a
//! handle will still deliver (`incoming`/`frames`), the bytes or frames
//! it has accepted so far (`written`/`sent`), and whether it has been
//! shut down (`closed`).

use vstd::prelude::*;
use crate::address::{Address, AddressV};
use crate::error::Error;

verus! {

/// Readable half of a byte stream.
pub trait ByteRead: Sized {
    /// The bytes this handle will still deliver, in order, up to the
    /// peer's graceful close.
    spec fn incoming(&self) -> Seq<u8>;

    /// Reads some bytes into the front of `buf`, returning how many. A
    /// read moves the next bytes of `incoming` and never reorders,
    /// duplicates or invents data; it returns `0` exactly when the
    /// stream has ended gracefully, and makes progress whenever data is
    /// pending. A failed read consumes nothing.
    fn read(&mut self, buf: &mut Vec<u8>) -> (res: Result<usize, Error>)
        requires
            old(buf).len() > 0,
        ensures
            final(buf)@.len() == old(buf)@.len(),
            match res {
                Ok(n) => {
                    &&& n <= old(buf)@.len()
                    &&& n as int <= old(self).incoming().len()
                    &&& final(buf)@.take(n as int) == old(self).incoming().take(n as int)
                    &&& final(buf)@.skip(n as int) == old(buf)@.skip(n as int)
                    &&& final(self).incoming() == old(self).incoming().skip(n as int)
                    &&& (n == 0 ==> old(self).incoming().len() == 0)
                    &&& (old(self).incoming().len() > 0 ==> n > 0)
                },
                Err(_) => final(self).incoming() == old(self).incoming(),
            },
    ;
}

/// Writable half of a byte stream.
pub trait ByteWrite: Sized {
    /// The bytes this handle has accepted so far, in order.
    spec fn written(&self) -> Seq<u8>;

    /// Whether this handle has been shut down.
    spec fn closed(&self) -> bool;

    /// Writes the first `n` bytes of `data`, whole or not at all: a
    /// successful write appends exactly those bytes to `written`, a
    /// failed one reports nothing delivered.
    fn write_prefix(&mut self, data: &Vec<u8>, n: usize) -> (res: Result<(), Error>)
        requires
            n <= data.len(),
            !old(self).closed(),
        ensures
            !final(self).closed(),
            match res {
                Ok(()) => final(self).written() == old(self).written() + data@.take(n as int),
                Err(_) => final(self).written() == old(self).written(),
            },
    ;

    /// Flushes and closes the write direction. After shutdown the
    /// handle is closed and no byte of `written` is lost.
    fn shutdown(&mut self) -> (res: Result<(), Error>)
        requires
            !old(self).closed(),
        ensures
            final(self).closed(),
            final(self).written() == old(self).written(),
    ;
}

/// A TCP-capable stream: a full-duplex byte stream that splits into an
/// independent read half and write half, later reunited to perform a
/// single shutdown. The split/reunite pair is the only sanctioned way
/// to obtain concurrent read and write access to one connection.
pub trait ProxyTcpStream: Sized {
    type ReadHalf: ByteRead;

    type WriteHalf: ByteWrite;

    /// The bytes the stream will still deliver.
    spec fn incoming(&self) -> Seq<u8>;

    /// The bytes the stream has accepted so far.
    spec fn written(&self) -> Seq<u8>;

    /// Whether the stream has been shut down.
    spec fn closed(&self) -> bool;

    /// Splits into halves carrying exactly this stream's model.
    fn split(self) -> (halves: (Self::ReadHalf, Self::WriteHalf))
        ensures
            halves.0.incoming() == self.incoming(),
            halves.1.written() == self.written(),
            halves.1.closed() == self.closed(),
    ;

    /// Reunites two halves back into one stream carrying their models.
    fn reunite(r: Self::ReadHalf, w: Self::WriteHalf) -> (s: Self)
        ensures
            s.incoming() == r.incoming(),
            s.written() == w.written(),
            s.closed() == w.closed(),
    ;

    /// Flushes and closes the stream; nothing written is lost.
    fn shutdown(&mut self) -> (res: Result<(), Error>)
        requires
            !old(self).closed(),
        ensures
            final(self).closed(),
            final(self).written() == old(self).written(),
    ;
}

/// Reader of datagram frames: `read_from` yields one whole frame — a
/// frame is read atomically or the call fails, never partially.
pub trait UdpRead: Sized {
    /// The frames this handle will still deliver, each a destination
    /// address and a payload.
    spec fn frames(&self) -> Seq<(AddressV, Seq<u8>)>;

    /// Reads the next frame into the front of `buf`, returning the
    /// payload length and the frame's address. A zero-length payload
    /// signals graceful end of the channel. Success dequeues exactly
    /// the first pending frame; a frame that does not fit `buf`, or a
    /// malformed or truncated stream, fails instead of returning
    /// partial data.
    fn read_from(&mut self, buf: &mut Vec<u8>) -> (res: Result<(usize, Address), Error>)
        requires
            old(buf).len() > 0,
        ensures
            final(buf)@.len() == old(buf)@.len(),
            match res {
                Ok((n, addr)) => {
                    &&& old(self).frames().len() > 0
                    &&& addr@ == old(self).frames()[0].0
                    &&& addr@.wf()
                    &&& n as int == old(self).frames()[0].1.len()
                    &&& n <= old(buf)@.len()
                    &&& n <= 65535
                    &&& final(buf)@.take(n as int) == old(self).frames()[0].1
                    &&& final(buf)@.skip(n as int) == old(buf)@.skip(n as int)
                    &&& final(self).frames() == old(self).frames().skip(1)
                },
                Err(_) => true,
            },
    ;
}

/// Writer of datagram frames: `write_to` emits one whole frame
/// atomically; holding the writer exclusively (`&mut`) is what rules
/// out interleaving of two writes.
pub trait UdpWrite: Sized {
    /// The frames this handle has accepted so far.
    spec fn sent(&self) -> Seq<(AddressV, Seq<u8>)>;

    /// Whether this handle has been closed.
    spec fn closed(&self) -> bool;

    /// Implementation-specific well-formedness, established at
    /// construction and preserved by every write.
    spec fn wf(&self) -> bool;

    /// Writes the first `n` bytes of `data` as one frame aimed at
    /// `addr`: a successful write appends exactly that frame to `sent`,
    /// a failed one reports nothing delivered.
    fn write_to(&mut self, data: &Vec<u8>, n: usize, addr: &Address) -> (res: Result<(), Error>)
        requires
            n <= data.len(),
            n <= 65535,
            addr@.wf(),
            old(self).wf(),
            !old(self).closed(),
        ensures
            final(self).wf(),
            !final(self).closed(),
            match res {
                Ok(()) => final(self).sent() == old(self).sent() + seq![
                    (addr@, data@.take(n as int)),
                ],
                Err(_) => final(self).sent() == old(self).sent(),
            },
    ;
}

/// A UDP-capable stream: splittable into a frame reader and a frame
/// writer, reunitable into exactly the original stream, and explicitly
/// closable.
pub trait ProxyUdpStream: Sized {
    type R: UdpRead;

    type W: UdpWrite;

    /// The frames the stream will still deliver.
    spec fn frames(&self) -> Seq<(AddressV, Seq<u8>)>;

    /// The frames the stream has accepted so far.
    spec fn sent(&self) -> Seq<(AddressV, Seq<u8>)>;

    /// Whether the stream has been closed.
    spec fn closed(&self) -> bool;

    /// Implementation-specific well-formedness.
    spec fn wf(&self) -> bool;

    /// Splits into halves carrying exactly this stream's model.
    fn split(self) -> (halves: (Self::R, Self::W))
        ensures
            halves.0.frames() == self.frames(),
            halves.1.sent() == self.sent(),
            halves.1.closed() == self.closed(),
            halves.1.wf() == self.wf(),
    ;

    /// Reunites two halves back into one stream carrying their models.
    fn reunite(r: Self::R, w: Self::W) -> (s: Self)
        ensures
            s.frames() == r.frames(),
            s.sent() == w.sent(),
            s.closed() == w.closed(),
            s.wf() == w.wf(),
    ;

    /// Closes the channel; nothing sent is lost.
    fn close(&mut self) -> (res: Result<(), Error>)
        requires
            !old(self).closed(),
        ensures
            final(self).closed(),
            final(self).sent() == old(self).sent(),
    ;
}

/// What an acceptor yields for one inbound connection: a TCP-capable
/// stream with the target address it asked for, or a UDP channel.
pub enum AcceptResult<T, U> {
    Tcp(T, Address),
    Udp(U),
}

/// Inbound side of the proxy: yields accepted connections one at a
/// time, each consumed immediately by the dispatch loop.
pub trait ProxyAcceptor: Sized {
    type TS: ProxyTcpStream;

    type US: ProxyUdpStream;

    /// The connections this acceptor will still yield, in order; a
    /// `None` entry stands for an arrival that fails to accept.
    spec fn pending(&self) -> Seq<Option<AcceptResult<Self::TS, Self::US>>>;

    /// Accepts the next inbound connection. Success yields exactly the
    /// first pending arrival, open and well-formed; failure also
    /// consumes only that arrival, so one bad connection never stalls
    /// the queue.
    fn accept(&mut self) -> (res: Result<AcceptResult<Self::TS, Self::US>, Error>)
        ensures
            final(self).pending() == if old(self).pending().len() == 0 {
                old(self).pending()
            } else {
                old(self).pending().skip(1)
            },
            match res {
                Ok(acc) => {
                    &&& old(self).pending().len() > 0
                    &&& old(self).pending()[0] == Some(acc)
                    &&& match acc {
                        AcceptResult::Tcp(s, addr) => !s.closed() && addr@.wf(),
                        AcceptResult::Udp(u) => !u.closed() && u.wf(),
                    }
                },
                Err(_) => old(self).pending().len() == 0 || old(self).pending()[0] is None,
            },
    ;
}

/// Outbound side of the proxy: establishes the connection a session
/// relays into. A connector holds static configuration only, is never
/// mutated, and is shared read-only across all sessions.
pub trait ProxyConnector: Sized {
    type TS: ProxyTcpStream;

    type US: ProxyUdpStream;

    /// Connects a TCP-capable stream to `addr`. A fresh stream is open.
    fn connect_tcp(&self, addr: &Address) -> (res: Result<Self::TS, Error>)
        ensures
            res matches Ok(s) ==> !s.closed(),
    ;

    /// Opens a UDP channel. A fresh channel is open and well-formed.
    fn connect_udp(&self) -> (res: Result<Self::US, Error>)
        ensures
            res matches Ok(u) ==> !u.closed() && u.wf(),
    ;
}

} // verus!
