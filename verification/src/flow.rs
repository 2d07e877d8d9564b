use vstd::prelude::*;

verus! {

/// A point in time: whole seconds since the UNIX epoch and the nanoseconds past them.
pub struct Timestamp {
    pub seconds: i64,
    pub nanos: i32,
}

/// The Kubernetes workload at one end of a flow.
pub struct Endpoint {
    pub namespace: String,
    pub pod_name: String,
}

/// The Kubernetes service that an endpoint belongs to.
pub struct Service {
    pub name: String,
}

/// The network-layer addresses of a flow.
pub struct Ip {
    pub source: String,
    pub destination: String,
}

/// The TCP flags that the formatter reports.
pub struct TcpFlags {
    pub syn: bool,
    pub ack: bool,
    pub fin: bool,
    pub rst: bool,
    pub psh: bool,
}

pub struct Tcp {
    pub source_port: u32,
    pub destination_port: u32,
    pub flags: Option<TcpFlags>,
}

pub struct Udp {
    pub source_port: u32,
    pub destination_port: u32,
}

/// The transport protocol of a flow; `Other` stands for every protocol besides TCP and UDP.
pub enum Protocol {
    Tcp(Tcp),
    Udp(Udp),
    Other,
}

pub struct Layer4 {
    pub protocol: Option<Protocol>,
}

pub struct HttpHeader {
    pub key: String,
    pub value: String,
}

pub struct Http {
    pub code: u32,
    pub method: String,
    pub url: String,
    pub headers: Vec<HttpHeader>,
}

pub struct Dns {
    pub query: String,
    pub ips: Vec<String>,
    pub ttl: u32,
    pub cnames: Vec<String>,
    pub observation_source: String,
    pub rcode: u32,
    pub qtypes: Vec<String>,
    pub rrtypes: Vec<String>,
}

/// The application-layer record of a flow; `Other` stands for every kind besides HTTP and DNS.
pub enum Record {
    Http(Http),
    Dns(Dns),
    Other,
}

pub struct Layer7 {
    pub record: Option<Record>,
    pub latency_ns: u64,
}

/// One network flow as Hubble reports it.
pub struct Flow {
    pub time: Option<Timestamp>,
    pub verdict: i32,
    pub drop_reason_desc: i32,
    pub ip: Option<Ip>,
    pub l4: Option<Layer4>,
    pub source: Option<Endpoint>,
    pub destination: Option<Endpoint>,
    pub flow_type: i32,
    pub node_name: String,
    pub l7: Option<Layer7>,
    pub source_service: Option<Service>,
    pub destination_service: Option<Service>,
    pub traffic_direction: i32,
}

/// What one message of the flow stream carries; only flows are rendered.
pub enum ResponseTypes {
    Flow(Flow),
    NodeStatus,
    LostEvents,
}

/// One message of the flow stream.
pub struct GetFlowsResponse {
    pub response_types: Option<ResponseTypes>,
}

/// The verdicts that Hubble gives a flow, with their wire codes.
pub enum Verdict {
    VerdictUnknown,
    Forwarded,
    Dropped,
    Error,
    Audit,
    Redirected,
    Traced,
    Translated,
}

pub open spec fn verdict_code(v: Verdict) -> i32 {
    match v {
        Verdict::VerdictUnknown => 0,
        Verdict::Forwarded => 1,
        Verdict::Dropped => 2,
        Verdict::Error => 3,
        Verdict::Audit => 4,
        Verdict::Redirected => 5,
        Verdict::Traced => 6,
        Verdict::Translated => 7,
    }
}

impl Verdict {
    /// The wire code of this verdict.
    pub fn code(&self) -> (r: i32)
        ensures
            r == verdict_code(*self),
    {
        match self {
            Verdict::VerdictUnknown => 0,
            Verdict::Forwarded => 1,
            Verdict::Dropped => 2,
            Verdict::Error => 3,
            Verdict::Audit => 4,
            Verdict::Redirected => 5,
            Verdict::Traced => 6,
            Verdict::Translated => 7,
        }
    }
}

} // verus!
