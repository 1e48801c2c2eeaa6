//! Dispatch loop and process configuration.
//!
//! `run_proxy` is generic over any acceptor/connector pair: it accepts,
//! connects outbound, and hands both ends to the relay engine, with
//! per-connection failure isolation — a failed accept or connect
//! consumes only its own arrival and never stalls the queue.
//!
//! The configuration document has a top-level `mode` of `server`,
//! `client` or `forward` and an optional `log_level`; an unrecognized
//! mode is reported without any proxying, an invalid log level or a
//! malformed document aborts startup.

use vstd::prelude::*;
use crate::error::{Error, ErrorKind};
use crate::relay::{relay_tcp, relay_udp};
use crate::stream::{AcceptResult, ProxyAcceptor, ProxyConnector};

verus! {

/// Runs the dispatch loop for up to `rounds` inbound arrivals: each
/// accepted TCP connection is connected outbound and relayed, each
/// accepted UDP channel likewise; a failed accept or a failed connect
/// is dropped and the loop goes on. Whatever fails, the acceptor's
/// queue always advances by one arrival per round — one bad connection
/// never affects the ones behind it.
///
/// The connector is shared read-only across sessions. `rounds` bounds
/// the service loop; the embedding process picks it or loops forever.
#[verifier::loop_isolation(false)]
pub fn run_proxy<I: ProxyAcceptor, O: ProxyConnector>(
    acceptor: &mut I,
    connector: &O,
    rounds: usize,
)
    ensures
        final(acceptor).pending() == if rounds as int <= old(acceptor).pending().len() {
            old(acceptor).pending().skip(rounds as int)
        } else {
            old(acceptor).pending().skip(old(acceptor).pending().len() as int)
        },
{
    let ghost p0 = acceptor.pending();
    let mut i: usize = 0;
    while i < rounds
        invariant
            0 <= i <= rounds,
            acceptor.pending() == if i as int <= p0.len() {
                p0.skip(i as int)
            } else {
                p0.skip(p0.len() as int)
            },
        decreases rounds - i,
    {
        let ghost cur = acceptor.pending();
        match acceptor.accept() {
            Ok(AcceptResult::Tcp(inbound, addr)) => {
                match connector.connect_tcp(&addr) {
                    Ok(outbound) => {
                        let _ = relay_tcp(inbound, outbound);
                    },
                    Err(_) => {
                        // connect failed: the inbound stream is dropped,
                        // the loop continues.
                    },
                }
            },
            Ok(AcceptResult::Udp(inbound)) => {
                match connector.connect_udp() {
                    Ok(outbound) => {
                        let _ = relay_udp(inbound, outbound);
                    },
                    Err(_) => {},
                }
            },
            Err(_) => {
                // accept failed: transient, the loop continues.
            },
        }
        proof {
            if (i as int) < p0.len() {
                assert(cur == p0.skip(i as int));
                assert(p0.skip(i as int).skip(1) =~= p0.skip(i as int + 1));
            } else {
                assert(cur.len() == 0);
            }
        }
        i += 1;
    }
}

/// Operating mode of the process.
#[derive(Clone, Copy, Debug, PartialEq, Eq, Structural)]
pub enum Mode {
    Server,
    Client,
    Forward,
}

/// Verbosity of process logging.
#[derive(Clone, Copy, Debug, PartialEq, Eq, Structural)]
pub enum LogLevel {
    Trace,
    Debug,
    Info,
    Warn,
    Error,
}

/// The mode named by a configuration value, if any.
pub open spec fn spec_parse_mode(s: Seq<char>) -> Option<Mode> {
    if s == "server"@ {
        Some(Mode::Server)
    } else if s == "client"@ {
        Some(Mode::Client)
    } else if s == "forward"@ {
        Some(Mode::Forward)
    } else {
        None
    }
}

/// The log level named by a configuration value, if any.
pub open spec fn spec_parse_log_level(s: Seq<char>) -> Option<LogLevel> {
    if s == "trace"@ {
        Some(LogLevel::Trace)
    } else if s == "debug"@ {
        Some(LogLevel::Debug)
    } else if s == "info"@ {
        Some(LogLevel::Info)
    } else if s == "warn"@ {
        Some(LogLevel::Warn)
    } else if s == "error"@ {
        Some(LogLevel::Error)
    } else {
        None
    }
}

/// The log level the process runs with: `debug` when the document
/// names none, otherwise exactly the named level, or nothing when the
/// name is invalid.
pub open spec fn spec_effective_log_level(o: Option<Seq<char>>) -> Option<LogLevel> {
    match o {
        None => Some(LogLevel::Debug),
        Some(s) => spec_parse_log_level(s),
    }
}

/// Parses a `mode` value.
pub fn parse_mode(s: &String) -> (r: Option<Mode>)
    ensures
        r == spec_parse_mode(s@),
{
    if *s == "server".to_owned() {
        Some(Mode::Server)
    } else if *s == "client".to_owned() {
        Some(Mode::Client)
    } else if *s == "forward".to_owned() {
        Some(Mode::Forward)
    } else {
        None
    }
}

/// Parses a `log_level` value.
pub fn parse_log_level(s: &String) -> (r: Option<LogLevel>)
    ensures
        r == spec_parse_log_level(s@),
{
    if *s == "trace".to_owned() {
        Some(LogLevel::Trace)
    } else if *s == "debug".to_owned() {
        Some(LogLevel::Debug)
    } else if *s == "info".to_owned() {
        Some(LogLevel::Info)
    } else if *s == "warn".to_owned() {
        Some(LogLevel::Warn)
    } else if *s == "error".to_owned() {
        Some(LogLevel::Error)
    } else {
        None
    }
}

/// The top-level `mode` and `log_level` string fields of a
/// configuration document, as the toml crate reads them: a function of
/// the document text alone; `None` when the document does not parse.
pub uninterp spec fn toml_top_fields(s: Seq<char>) -> Option<
    (Option<Seq<char>>, Option<Seq<char>>),
>;

/// The characters of an optional text.
pub open spec fn opt_view(o: Option<String>) -> Option<Seq<char>> {
    match o {
        Some(s) => Some(s@),
        None => None,
    }
}

/// Relies on `toml::from_str::<toml::Value>` to parse the document and
/// on `toml::Value::get` / `toml::Value::as_str` to look up the
/// top-level `mode` and `log_level` strings; the result is a function
/// of the document text alone.
#[verifier::external_body]
fn parse_config_fields(s: &str) -> (r: Option<(Option<String>, Option<String>)>)
    ensures
        match r {
            Some(fields) => toml_top_fields(s@) == Some(
                (opt_view(fields.0), opt_view(fields.1)),
            ),
            None => toml_top_fields(s@) is None,
        },
{
    match toml::from_str::<toml::Value>(s) {
        Ok(v) => {
            let mode = v.get("mode").and_then(|x| x.as_str()).map(|x| x.to_string());
            let level = v.get("log_level").and_then(|x| x.as_str()).map(|x| x.to_string());
            Some((mode, level))
        },
        Err(_) => None,
    }
}

/// What a validated configuration asks the process to do.
#[derive(Clone, Copy, Debug, PartialEq, Eq, Structural)]
pub enum LaunchPlan {
    /// Run the proxy in this mode at this log level.
    Run { mode: Mode, log_level: LogLevel },
    /// The `mode` value is unrecognized: report it and perform no
    /// proxying.
    InvalidMode,
}

/// The outcome a configuration document settles on: `None` when the
/// document is malformed, names an invalid log level, or lacks a
/// `mode` — the fatal cases that abort startup.
pub open spec fn spec_launch(doc: Seq<char>) -> Option<LaunchPlan> {
    match toml_top_fields(doc) {
        None => None,
        Some(fields) => match spec_effective_log_level(fields.1) {
            None => None,
            Some(lv) => match fields.0 {
                None => None,
                Some(m) => match spec_parse_mode(m) {
                    Some(md) => Some(LaunchPlan::Run { mode: md, log_level: lv }),
                    None => Some(LaunchPlan::InvalidMode),
                },
            },
        },
    }
}

/// Validates a configuration document and decides what the process
/// does: a malformed document, a missing `mode` or an invalid
/// `log_level` is a fatal configuration error; an unrecognized `mode`
/// asks for an error report and no proxying. The embedding process
/// carries the plan out before any socket is opened.
pub fn launch_from_config_string(config: &str) -> (r: Result<LaunchPlan, Error>)
    ensures
        match r {
            Ok(plan) => spec_launch(config@) == Some(plan),
            Err(e) => spec_launch(config@) is None && e.kind == ErrorKind::Config,
        },
{
    let fields = match parse_config_fields(config) {
        Some(f) => f,
        None => {
            return Err(Error::new(ErrorKind::Config, "malformed configuration document"));
        },
    };
    let (mode_field, level_field) = fields;
    let log_level = match level_field {
        None => LogLevel::Debug,
        Some(ls) => match parse_log_level(&ls) {
            Some(lv) => lv,
            None => {
                return Err(Error::new(ErrorKind::Config, "invalid log_level"));
            },
        },
    };
    let mode_text = match mode_field {
        Some(ms) => ms,
        None => {
            return Err(Error::new(ErrorKind::Config, "configuration names no mode"));
        },
    };
    match parse_mode(&mode_text) {
        Some(mode) => Ok(LaunchPlan::Run { mode, log_level }),
        None => Ok(LaunchPlan::InvalidMode),
    }
}

} // verus!
