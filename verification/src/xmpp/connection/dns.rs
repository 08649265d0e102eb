//! Endpoints that DNS SRV resolution yields.
use vstd::prelude::*;

verus! {

/// A host, a port and how TLS is set up there.
#[derive(Debug, Clone)]
pub struct ResolvedEndpoint {
    pub host: String,
    pub port: u16,
    pub tls: TlsMode,
}

/// How TLS is negotiated with an endpoint.
#[derive(Debug, Clone, PartialEq, Eq, Structural)]
pub enum TlsMode {
    Direct,
    StartTls,
}

} // verus!
