use std::cell::{Cell, RefCell};
use std::collections::VecDeque;
use std::rc::Rc;

use trojan_core::address::{Address, AddressV};
use trojan_core::codec::encode_frame;
use trojan_core::error::{Error, ErrorKind};
use trojan_core::relay::{copy_tcp, relay_tcp, relay_udp};
use trojan_core::proxy::run_proxy;
use trojan_core::stream::{
    AcceptResult, ByteRead, ByteWrite, ProxyAcceptor, ProxyConnector, ProxyTcpStream,
    ProxyUdpStream, UdpRead, UdpWrite,
};
use trojan_core::trojan::{TrojanUdpReader, TrojanUdpStream, TrojanUdpWriter};

fn domain(name: &[u8], port: u16) -> Address {
    Address::Domain { name: name.to_vec(), port }
}

// ---- fake byte streams -------------------------------------------------

struct FakeReadHalf {
    data: Vec<u8>,
    pos: usize,
    fail_at_end: bool,
}

impl ByteRead for FakeReadHalf {
    fn incoming(&self) -> vstd::seq::Seq<u8> {
        panic!()
    }

    fn read(&mut self, buf: &mut Vec<u8>) -> Result<usize, Error> {
        if self.pos >= self.data.len() {
            if self.fail_at_end {
                return Err(Error::new(ErrorKind::Io, "connection reset"));
            }
            return Ok(0);
        }
        let n = std::cmp::min(buf.len(), self.data.len() - self.pos);
        for i in 0..n {
            buf[i] = self.data[self.pos + i];
        }
        self.pos += n;
        Ok(n)
    }
}

struct FakeWriteHalf {
    sink: Rc<RefCell<Vec<u8>>>,
    closed: Rc<Cell<bool>>,
}

impl ByteWrite for FakeWriteHalf {
    fn written(&self) -> vstd::seq::Seq<u8> {
        panic!()
    }

    fn closed(&self) -> bool {
        panic!()
    }

    fn write_prefix(&mut self, data: &Vec<u8>, n: usize) -> Result<(), Error> {
        self.sink.borrow_mut().extend_from_slice(&data[..n]);
        Ok(())
    }

    fn shutdown(&mut self) -> Result<(), Error> {
        assert!(!self.closed.get(), "stream shut down twice");
        self.closed.set(true);
        Ok(())
    }
}

struct FakeTcpStream {
    r: FakeReadHalf,
    w: FakeWriteHalf,
}

impl ProxyTcpStream for FakeTcpStream {
    type ReadHalf = FakeReadHalf;
    type WriteHalf = FakeWriteHalf;

    fn incoming(&self) -> vstd::seq::Seq<u8> {
        panic!()
    }

    fn written(&self) -> vstd::seq::Seq<u8> {
        panic!()
    }

    fn closed(&self) -> bool {
        panic!()
    }

    fn split(self) -> (FakeReadHalf, FakeWriteHalf) {
        (self.r, self.w)
    }

    fn reunite(r: FakeReadHalf, w: FakeWriteHalf) -> Self {
        FakeTcpStream { r, w }
    }

    fn shutdown(&mut self) -> Result<(), Error> {
        self.w.shutdown()
    }
}

fn tcp_stream(incoming: &[u8]) -> (FakeTcpStream, Rc<RefCell<Vec<u8>>>, Rc<Cell<bool>>) {
    let sink = Rc::new(RefCell::new(Vec::new()));
    let closed = Rc::new(Cell::new(false));
    let s = FakeTcpStream {
        r: FakeReadHalf { data: incoming.to_vec(), pos: 0, fail_at_end: false },
        w: FakeWriteHalf { sink: sink.clone(), closed: closed.clone() },
    };
    (s, sink, closed)
}

fn failing_tcp_stream(
    incoming: &[u8],
) -> (FakeTcpStream, Rc<RefCell<Vec<u8>>>, Rc<Cell<bool>>) {
    let (mut s, sink, closed) = tcp_stream(incoming);
    s.r.fail_at_end = true;
    (s, sink, closed)
}

// ---- fake datagram channels --------------------------------------------

struct FakeUdpReader {
    frames: VecDeque<(Vec<u8>, Address)>,
}

impl UdpRead for FakeUdpReader {
    fn frames(&self) -> vstd::seq::Seq<(AddressV, vstd::seq::Seq<u8>)> {
        panic!()
    }

    fn read_from(&mut self, buf: &mut Vec<u8>) -> Result<(usize, Address), Error> {
        match self.frames.pop_front() {
            Some((payload, addr)) => {
                if payload.len() > buf.len() {
                    return Err(Error::new(ErrorKind::Protocol, "frame too large"));
                }
                for i in 0..payload.len() {
                    buf[i] = payload[i];
                }
                Ok((payload.len(), addr))
            },
            None => Err(Error::new(ErrorKind::Io, "channel drained")),
        }
    }
}

struct FakeUdpWriter {
    sent: Rc<RefCell<Vec<(Vec<u8>, Address)>>>,
    closed: Rc<Cell<bool>>,
}

impl UdpWrite for FakeUdpWriter {
    fn sent(&self) -> vstd::seq::Seq<(AddressV, vstd::seq::Seq<u8>)> {
        panic!()
    }

    fn closed(&self) -> bool {
        panic!()
    }

    fn wf(&self) -> bool {
        panic!()
    }

    fn write_to(&mut self, data: &Vec<u8>, n: usize, addr: &Address) -> Result<(), Error> {
        self.sent.borrow_mut().push((data[..n].to_vec(), addr.clone()));
        Ok(())
    }
}

struct FakeUdpStream {
    r: FakeUdpReader,
    w: FakeUdpWriter,
}

impl ProxyUdpStream for FakeUdpStream {
    type R = FakeUdpReader;
    type W = FakeUdpWriter;

    fn frames(&self) -> vstd::seq::Seq<(AddressV, vstd::seq::Seq<u8>)> {
        panic!()
    }

    fn sent(&self) -> vstd::seq::Seq<(AddressV, vstd::seq::Seq<u8>)> {
        panic!()
    }

    fn closed(&self) -> bool {
        panic!()
    }

    fn wf(&self) -> bool {
        panic!()
    }

    fn split(self) -> (FakeUdpReader, FakeUdpWriter) {
        (self.r, self.w)
    }

    fn reunite(r: FakeUdpReader, w: FakeUdpWriter) -> Self {
        FakeUdpStream { r, w }
    }

    fn close(&mut self) -> Result<(), Error> {
        assert!(!self.w.closed.get(), "channel closed twice");
        self.w.closed.set(true);
        Ok(())
    }
}

fn udp_stream(
    frames: Vec<(Vec<u8>, Address)>,
) -> (FakeUdpStream, Rc<RefCell<Vec<(Vec<u8>, Address)>>>, Rc<Cell<bool>>) {
    let sent = Rc::new(RefCell::new(Vec::new()));
    let closed = Rc::new(Cell::new(false));
    let s = FakeUdpStream {
        r: FakeUdpReader { frames: frames.into_iter().collect() },
        w: FakeUdpWriter { sent: sent.clone(), closed: closed.clone() },
    };
    (s, sent, closed)
}

// ---- TCP relay scenarios ------------------------------------------------

#[test]
fn tcp_happy_path_ping_pong() {
    let (client, client_sink, client_closed) = tcp_stream(b"ping");
    let (server, server_sink, server_closed) = tcp_stream(b"pong");
    relay_tcp(client, server);
    assert_eq!(&*server_sink.borrow(), b"ping");
    assert_eq!(&*client_sink.borrow(), b"pong");
    assert!(client_closed.get());
    assert!(server_closed.get());
}

#[test]
fn zero_length_read_ends_direction_without_error() {
    let (a, _a_sink, a_closed) = tcp_stream(b"");
    let (b, b_sink, b_closed) = tcp_stream(b"");
    let (a, b) = relay_tcp(a, b);
    assert!(a_closed.get());
    assert!(b_closed.get());
    assert!(b_sink.borrow().is_empty());
    drop((a, b));
}

#[test]
fn copy_tcp_moves_all_pending_bytes() {
    let mut r = FakeReadHalf { data: b"stream of bytes".to_vec(), pos: 0, fail_at_end: false };
    let sink = Rc::new(RefCell::new(Vec::new()));
    let mut w = FakeWriteHalf { sink: sink.clone(), closed: Rc::new(Cell::new(false)) };
    copy_tcp(&mut r, &mut w).unwrap();
    assert_eq!(&*sink.borrow(), b"stream of bytes");
}

#[test]
fn io_error_still_shuts_both_streams_down() {
    let (a, _a_sink, a_closed) = failing_tcp_stream(b"partial");
    let (b, b_sink, b_closed) = tcp_stream(b"");
    relay_tcp(a, b);
    // the bytes before the failure were relayed, and both peers closed.
    assert_eq!(&*b_sink.borrow(), b"partial");
    assert!(a_closed.get());
    assert!(b_closed.get());
}

// ---- UDP frame relay ----------------------------------------------------

#[test]
fn udp_writer_then_reader_round_trip() {
    let addr = domain(b"example.com", 53);
    let sink = Rc::new(RefCell::new(Vec::new()));
    let wh = FakeWriteHalf { sink: sink.clone(), closed: Rc::new(Cell::new(false)) };
    let mut writer = TrojanUdpWriter::new(wh);
    writer.write_to(&b"hello".to_vec(), 5, &addr).unwrap();

    let bytes = sink.borrow().clone();
    assert_eq!(bytes, encode_frame(&addr, &b"hello".to_vec()));

    let rh = FakeReadHalf { data: bytes, pos: 0, fail_at_end: false };
    let mut reader = TrojanUdpReader::new(rh);
    let mut buf = vec![0u8; 8192];
    let (n, got) = reader.read_from(&mut buf).unwrap();
    assert_eq!(n, 5);
    assert_eq!(got, domain(b"example.com", 53));
    assert_eq!(&buf[..5], b"hello");
}

#[test]
fn truncated_frame_fails_to_decode() {
    let addr = domain(b"example.com", 53);
    let frame = encode_frame(&addr, &b"hello".to_vec());
    for cut in [1, 5, frame.len() - 1] {
        let rh = FakeReadHalf { data: frame[..cut].to_vec(), pos: 0, fail_at_end: false };
        let mut reader = TrojanUdpReader::new(rh);
        let mut buf = vec![0u8; 8192];
        let e = reader.read_from(&mut buf).unwrap_err();
        assert_eq!(e.kind, ErrorKind::Protocol, "cut at {} decoded", cut);
    }
}

#[test]
fn unknown_address_tag_fails_to_decode() {
    let rh = FakeReadHalf { data: vec![9, 0, 0, 0, 0, 13, 10], pos: 0, fail_at_end: false };
    let mut reader = TrojanUdpReader::new(rh);
    let mut buf = vec![0u8; 64];
    let e = reader.read_from(&mut buf).unwrap_err();
    assert_eq!(e.kind, ErrorKind::Protocol);
}

#[test]
fn udp_frame_relay_end_to_end() {
    let addr = domain(b"example.com", 53);
    let end = domain(b"", 0);
    // Channel A delivers one "hello" frame, then an empty frame to end
    // the direction; channel B delivers only the terminator.
    let mut a_in = encode_frame(&addr, &b"hello".to_vec());
    a_in.extend_from_slice(&encode_frame(&end, &Vec::new()));
    let b_in = encode_frame(&end, &Vec::new());

    let (a_tcp, _a_sink, a_closed) = tcp_stream(&a_in);
    let (b_tcp, b_sink, b_closed) = tcp_stream(&b_in);
    let a = TrojanUdpStream::new(a_tcp);
    let b = TrojanUdpStream::new(b_tcp);
    relay_udp(a, b);

    assert_eq!(&*b_sink.borrow(), &encode_frame(&addr, &b"hello".to_vec()));
    assert!(a_closed.get());
    assert!(b_closed.get());
}

#[test]
fn relay_udp_on_fake_channels_preserves_frames() {
    let addr = domain(b"example.com", 53);
    let (a, _a_sent, a_closed) = udp_stream(vec![
        (b"hello".to_vec(), addr.clone()),
        (b"world".to_vec(), domain(b"example.org", 5353)),
        (Vec::new(), addr.clone()),
        (b"after the end".to_vec(), addr.clone()),
    ]);
    let (b, b_sent, b_closed) = udp_stream(vec![(Vec::new(), addr.clone())]);
    relay_udp(a, b);
    // the empty frame ends the direction: nothing behind it is relayed.
    let sent = b_sent.borrow();
    assert_eq!(sent.len(), 2);
    assert_eq!(sent[0], (b"hello".to_vec(), domain(b"example.com", 53)));
    assert_eq!(sent[1], (b"world".to_vec(), domain(b"example.org", 5353)));
    assert!(a_closed.get());
    assert!(b_closed.get());
}

// ---- dispatch loop ------------------------------------------------------

struct FakeAcceptor {
    queue: VecDeque<Option<AcceptResult<FakeTcpStream, FakeUdpStream>>>,
}

impl ProxyAcceptor for FakeAcceptor {
    type TS = FakeTcpStream;
    type US = FakeUdpStream;

    fn pending(
        &self,
    ) -> vstd::seq::Seq<Option<AcceptResult<FakeTcpStream, FakeUdpStream>>> {
        panic!()
    }

    fn accept(&mut self) -> Result<AcceptResult<FakeTcpStream, FakeUdpStream>, Error> {
        match self.queue.pop_front() {
            Some(Some(acc)) => Ok(acc),
            Some(None) => Err(Error::new(ErrorKind::Accept, "accept failed")),
            None => Err(Error::new(ErrorKind::Accept, "listener drained")),
        }
    }
}

struct FlakyConnector {
    fail_next: Cell<bool>,
    connects: Cell<usize>,
    out_sink: Rc<RefCell<Vec<u8>>>,
    udp_sent: Rc<RefCell<Vec<(Vec<u8>, Address)>>>,
}

impl ProxyConnector for FlakyConnector {
    type TS = FakeTcpStream;
    type US = FakeUdpStream;

    fn connect_tcp(&self, _addr: &Address) -> Result<FakeTcpStream, Error> {
        self.connects.set(self.connects.get() + 1);
        if self.fail_next.replace(false) {
            return Err(Error::new(ErrorKind::Connect, "target unreachable"));
        }
        Ok(FakeTcpStream {
            r: FakeReadHalf { data: Vec::new(), pos: 0, fail_at_end: false },
            w: FakeWriteHalf { sink: self.out_sink.clone(), closed: Rc::new(Cell::new(false)) },
        })
    }

    fn connect_udp(&self) -> Result<FakeUdpStream, Error> {
        self.connects.set(self.connects.get() + 1);
        Ok(FakeUdpStream {
            r: FakeUdpReader {
                frames: VecDeque::from(vec![(Vec::new(), domain(b"", 0))]),
            },
            w: FakeUdpWriter { sent: self.udp_sent.clone(), closed: Rc::new(Cell::new(false)) },
        })
    }
}

fn flaky_connector(fail_first: bool) -> FlakyConnector {
    FlakyConnector {
        fail_next: Cell::new(fail_first),
        connects: Cell::new(0),
        out_sink: Rc::new(RefCell::new(Vec::new())),
        udp_sent: Rc::new(RefCell::new(Vec::new())),
    }
}

#[test]
fn one_failed_connect_does_not_stop_later_sessions() {
    let (first, _s1, _c1) = tcp_stream(b"one");
    let (second, _s2, second_closed) = tcp_stream(b"two");
    let mut acceptor = FakeAcceptor {
        queue: VecDeque::from(vec![
            Some(AcceptResult::Tcp(first, domain(b"example.com", 80))),
            None,
            Some(AcceptResult::Tcp(second, domain(b"example.com", 80))),
        ]),
    };
    let connector = flaky_connector(true);
    run_proxy(&mut acceptor, &connector, 3);
    // Both arrivals reached the connector despite the first failing,
    // and the accept error in between was skipped.
    assert_eq!(connector.connects.get(), 2);
    assert_eq!(&*connector.out_sink.borrow(), b"two");
    assert!(second_closed.get());
    assert!(acceptor.queue.is_empty());
}

#[test]
fn dispatch_relays_udp_arrivals() {
    let addr = domain(b"example.com", 53);
    let (chan, _sent, chan_closed) = udp_stream(vec![
        (b"payload".to_vec(), addr.clone()),
        (Vec::new(), addr.clone()),
    ]);
    let mut acceptor = FakeAcceptor {
        queue: VecDeque::from(vec![Some(AcceptResult::Udp(chan))]),
    };
    let connector = flaky_connector(false);
    run_proxy(&mut acceptor, &connector, 1);
    let sent = connector.udp_sent.borrow();
    assert_eq!(sent.len(), 1);
    assert_eq!(sent[0], (b"payload".to_vec(), addr));
    assert!(chan_closed.get());
}

#[test]
fn accept_scenario_tcp_happy_path_through_dispatch() {
    let (inbound, in_sink, in_closed) = tcp_stream(b"ping");
    let mut acceptor = FakeAcceptor {
        queue: VecDeque::from(vec![Some(AcceptResult::Tcp(
            inbound,
            Address::Ipv4 { ip: vec![127, 0, 0, 1], port: 9000 },
        ))]),
    };
    let connector = flaky_connector(false);
    run_proxy(&mut acceptor, &connector, 1);
    assert_eq!(&*connector.out_sink.borrow(), b"ping");
    assert!(in_sink.borrow().is_empty());
    assert!(in_closed.get());
}
