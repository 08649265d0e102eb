//! Where to connect: the server field of the login screen, SASL mechanism
//! choice, the endpoint types of DNS resolution and the proxy lifecycle.
pub mod dns;
pub mod proxy;
pub mod sasl;

use vstd::prelude::*;
use crate::util::strs::{
    chars_of, last_index, parse_unsigned, parse_unsigned_chars, rfind_char, seq_starts_with,
    string_of, string_of_range, trim, trim_bounds, vec_starts_with,
};

verus! {

/// What the login screen hands the engine.
#[derive(Debug, Clone)]
pub struct ConnectConfig {
    pub jid: String,
    pub password: String,
    pub server: String,
    pub status_message: Option<String>,
    pub send_receipts: bool,
    pub send_typing: bool,
    pub send_read_markers: bool,
    pub proxy_type: Option<String>,
    pub proxy_host: Option<String>,
    pub proxy_port: Option<u16>,
    pub manual_srv: Option<String>,
    pub push_service_jid: Option<String>,
}

impl ConnectConfig {
    /// The proxy type, host and port, when all three are configured.
    pub fn proxy_config(&self) -> (r: Option<(String, String, u16)>)
        ensures
            r is Some <==> (self.proxy_type is Some && self.proxy_host is Some && self.proxy_port is Some),
            r matches Some(t) ==> t.0@ == self.proxy_type->0@ && t.1@ == self.proxy_host->0@ && t.2 == self.proxy_port->0,
    {
        match (&self.proxy_type, &self.proxy_host, self.proxy_port) {
            (Some(t), Some(h), Some(p)) => Some((t.clone(), h.clone(), p)),
            _ => None,
        }
    }
}

/// Parsed server input from the login screen.
#[derive(Debug, Clone)]
pub enum ServerTarget {
    /// Empty field or bare domain: resolve through SRV records.
    Domain(String),
    /// Explicit direct TLS.
    DirectTls { host: String, port: u16 },
    /// Explicit STARTTLS.
    StartTls { host: String, port: u16 },
    /// WebSocket URL (RFC 7395).
    WebSocket(String),
}

/// The mathematical value of a [`ServerTarget`].
pub enum TargetView {
    Domain(Seq<char>),
    DirectTls(Seq<char>, u16),
    StartTls(Seq<char>, u16),
    WebSocket(Seq<char>),
}

impl View for ServerTarget {
    type V = TargetView;

    open spec fn view(&self) -> TargetView {
        match self {
            ServerTarget::Domain(d) => TargetView::Domain(d@),
            ServerTarget::DirectTls { host, port } => TargetView::DirectTls(host@, *port),
            ServerTarget::StartTls { host, port } => TargetView::StartTls(host@, *port),
            ServerTarget::WebSocket(u) => TargetView::WebSocket(u@),
        }
    }
}

/// `host:port` split at the last `:`; a port that does not parse as `u16` gives `default_port`.
pub open spec fn host_port(s: Seq<char>, default_port: u16) -> (Seq<char>, u16) {
    match last_index(s, ':') {
        Some(i) => (
            s.take(i),
            match parse_unsigned(s.skip(i + 1), 0xffff) {
                Some(p) => p as u16,
                None => default_port,
            },
        ),
        None => (s, default_port),
    }
}

/// What the server field `input` selects, for an account whose JID domain
/// is `domain`: SRV resolution of that domain for an empty field and of the
/// field itself for a bare domain (no scheme, no port); a WebSocket URL; an
/// explicit `tls://` or `tcp://` host; or `host:port`, in direct TLS on
/// port 5223 and STARTTLS otherwise.
pub open spec fn target_of(input: Seq<char>, domain: Seq<char>) -> TargetView {
    let t = trim(input);
    if t.len() == 0 {
        TargetView::Domain(domain)
    } else if seq_starts_with(t, "wss://"@) || seq_starts_with(t, "ws://"@) {
        TargetView::WebSocket(t)
    } else if seq_starts_with(t, "tls://"@) {
        let hp = host_port(t.skip(6), 5223);
        TargetView::DirectTls(hp.0, hp.1)
    } else if seq_starts_with(t, "tcp://"@) {
        let hp = host_port(t.skip(6), 5222);
        TargetView::StartTls(hp.0, hp.1)
    } else if last_index(t, ':') is None {
        TargetView::Domain(t)
    } else {
        let hp = host_port(t, 5222);
        if hp.1 == 5223 {
            TargetView::DirectTls(hp.0, hp.1)
        } else {
            TargetView::StartTls(hp.0, hp.1)
        }
    }
}

impl ServerTarget {
    /// Interprets the server field of the login screen.
    pub fn parse(input: &str, jid_domain: &str) -> (r: Self)
        ensures
            r@ == target_of(input@, jid_domain@),
    {
        let raw = chars_of(input);
        let (lo, hi) = trim_bounds(&raw);
        let v = string_range_chars(&raw, lo, hi);
        assert(v@ == trim(input@));
        if v.len() == 0 {
            return ServerTarget::Domain(jid_domain.to_owned());
        }
        let wss = chars_of("wss://");
        let ws = chars_of("ws://");
        let tls = chars_of("tls://");
        let tcp = chars_of("tcp://");
        if vec_starts_with(&v, &wss) || vec_starts_with(&v, &ws) {
            return ServerTarget::WebSocket(string_of(&v));
        }
        proof {
            reveal_strlit("tls://");
            reveal_strlit("tcp://");
        }
        if vec_starts_with(&v, &tls) {
            let (host, port) = parse_host_port_from(&v, 6, 5223);
            return ServerTarget::DirectTls { host, port };
        }
        if vec_starts_with(&v, &tcp) {
            let (host, port) = parse_host_port_from(&v, 6, 5222);
            return ServerTarget::StartTls { host, port };
        }
        if rfind_char(&v, ':').is_none() {
            return ServerTarget::Domain(string_of(&v));
        }
        let (host, port) = parse_host_port_from(&v, 0, 5222);
        assert(v@.skip(0) =~= v@);
        if port == 5223 {
            ServerTarget::DirectTls { host, port }
        } else {
            ServerTarget::StartTls { host, port }
        }
    }
}

/// `v[lo..hi]` as its own vector.
fn string_range_chars(v: &Vec<char>, lo: usize, hi: usize) -> (r: Vec<char>)
    requires
        lo <= hi <= v.len(),
    ensures
        r@ == v@.subrange(lo as int, hi as int),
{
    let mut r: Vec<char> = Vec::new();
    let mut i = lo;
    while i < hi
        invariant
            lo <= i <= hi <= v.len(),
            r@ == v@.subrange(lo as int, i as int),
        decreases hi - i,
    {
        r.push(v[i]);
        assert(v@.subrange(lo as int, i + 1) =~= v@.subrange(lo as int, i as int).push(v@[i as int]));
        i += 1;
    }
    r
}

/// Splits `v[from..]` into host and port.
fn parse_host_port_from(v: &Vec<char>, from: usize, default_port: u16) -> (r: (String, u16))
    requires
        from <= v.len(),
    ensures
        r.0@ == host_port(v@.skip(from as int), default_port).0,
        r.1 == host_port(v@.skip(from as int), default_port).1,
{
    let rest = string_range_chars(v, from, v.len());
    assert(rest@ =~= v@.skip(from as int));
    parse_host_port_chars(&rest, default_port)
}

fn parse_host_port_chars(rest: &Vec<char>, default_port: u16) -> (r: (String, u16))
    ensures
        r.0@ == host_port(rest@, default_port).0,
        r.1 == host_port(rest@, default_port).1,
{
    match rfind_char(rest, ':') {
        Some(i) => {
            let host = string_of_range(rest, 0, i);
            assert(rest@.subrange(0, i as int) =~= rest@.take(i as int));
            let port = match parse_unsigned_chars(rest, i + 1, 0xffff) {
                Some(p) => p as u16,
                None => default_port,
            };
            (host, port)
        },
        None => (string_of(rest), default_port),
    }
}

/// Splits `input` at its last `:` into host and port, with `default_port`
/// when there is no colon or the port does not parse.
pub fn parse_host_port(input: &str, default_port: u16) -> (r: (String, u16))
    ensures
        r.0@ == host_port(input@, default_port).0,
        r.1 == host_port(input@, default_port).1,
{
    let v = chars_of(input);
    parse_host_port_chars(&v, default_port)
}

/// The scheme of the server field decides the kind of target: once
/// trimmed, an empty field resolves the account's domain; a `ws://` or
/// `wss://` URL is a WebSocket to that URL; `tls://host[:port]` is direct
/// TLS to that host (port 5223 unless given); `tcp://host[:port]` is
/// STARTTLS (port 5222 unless given).
pub proof fn law_target_by_scheme(input: Seq<char>, domain: Seq<char>)
    ensures
        trim(input).len() == 0 ==> target_of(input, domain) == TargetView::Domain(domain),
        seq_starts_with(trim(input), "ws://"@) || seq_starts_with(trim(input), "wss://"@) ==> target_of(input, domain)
            == TargetView::WebSocket(trim(input)),
        seq_starts_with(trim(input), "tls://"@) ==> target_of(input, domain) == TargetView::DirectTls(
            host_port(trim(input).skip(6), 5223).0,
            host_port(trim(input).skip(6), 5223).1,
        ),
        seq_starts_with(trim(input), "tcp://"@) ==> target_of(input, domain) == TargetView::StartTls(
            host_port(trim(input).skip(6), 5222).0,
            host_port(trim(input).skip(6), 5222).1,
        ),
{
    let t = trim(input);
    reveal_strlit("ws://");
    reveal_strlit("wss://");
    reveal_strlit("tls://");
    reveal_strlit("tcp://");
    if seq_starts_with(t, "tls://"@) || seq_starts_with(t, "tcp://"@) {
        assert(t.subrange(0, 6)[0] == t[0]);
        assert(t.subrange(0, 6)[1] == t[1]);
        assert(t[0] == 't');
        if seq_starts_with(t, "ws://"@) {
            assert(t.subrange(0, 5)[0] == t[0]);
        }
        if seq_starts_with(t, "wss://"@) {
            assert(t.subrange(0, 6)[0] == t[0]);
        }
        if seq_starts_with(t, "tcp://"@) && seq_starts_with(t, "tls://"@) {
            assert(t[1] == 'c' && t[1] == 'l');
        }
    }
}

/// Without a scheme, a field with no `:` is a domain to resolve by SRV;
/// `host:port` connects to that host and port, in direct TLS exactly when
/// the port is 5223; with no usable port it is STARTTLS on 5222.
pub proof fn law_target_without_scheme(input: Seq<char>, domain: Seq<char>)
    requires
        trim(input).len() > 0,
        !seq_starts_with(trim(input), "ws://"@),
        !seq_starts_with(trim(input), "wss://"@),
        !seq_starts_with(trim(input), "tls://"@),
        !seq_starts_with(trim(input), "tcp://"@),
    ensures
        last_index(trim(input), ':') is None ==> target_of(input, domain) == TargetView::Domain(trim(input)),
        last_index(trim(input), ':') matches Some(i) ==> {
            let host = trim(input).take(i);
            let port = match parse_unsigned(trim(input).skip(i + 1), 0xffff) {
                Some(p) => p as u16,
                None => 5222u16,
            };
            &&& port == 5223 ==> target_of(input, domain) == TargetView::DirectTls(host, port)
            &&& port != 5223 ==> target_of(input, domain) == TargetView::StartTls(host, port)
        },
{
}

} // verus!
