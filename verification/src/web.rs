use vstd::prelude::*;
use crate::clock::{format_utc_timestamp, text_or_fallback, utc_timestamp_text};
use crate::flow::{Flow, GetFlowsResponse, Protocol, ResponseTypes, Timestamp, Verdict};
use crate::formatter::{rendered, FlowFormatter};

verus! {

/// The source end of a flow as the web view shows it.
pub struct SourceInfo {
    pub namespace: String,
    pub pod: String,
    pub ip: String,
    pub port: u32,
}

/// The destination end of a flow as the web view shows it.
pub struct DestInfo {
    pub namespace: String,
    pub pod: String,
    pub ip: String,
    pub port: u32,
}

/// A flow as the web view receives it.
pub struct FlowData {
    pub id: u64,
    pub timestamp: String,
    pub source: SourceInfo,
    pub destination: DestInfo,
    pub protocol: String,
    pub verdict: String,
}

/// The time of a flow as the web view shows it: chrono's text, or nothing when the flow has
/// no time or chrono refuses it.
pub open spec fn web_timestamp(time: Option<Timestamp>) -> Seq<char> {
    match time {
        Some(t) => match utc_timestamp_text(t.seconds, t.nanos as u32) {
            Some(text) => text,
            None => Seq::empty(),
        },
        None => Seq::empty(),
    }
}

/// The source and destination ports of a TCP or UDP flow that has addresses; zero otherwise.
pub open spec fn flow_ports(flow: Flow) -> (u32, u32) {
    match (flow.ip, flow.l4) {
        (Some(_), Some(l4)) => match l4.protocol {
            Some(Protocol::Tcp(tcp)) => (tcp.source_port, tcp.destination_port),
            Some(Protocol::Udp(udp)) => (udp.source_port, udp.destination_port),
            _ => (0, 0),
        },
        _ => (0, 0),
    }
}

/// "TCP" or "UDP" for a flow that has addresses and that transport; "UNKNOWN" otherwise.
pub open spec fn protocol_name(flow: Flow) -> Seq<char> {
    match (flow.ip, flow.l4) {
        (Some(_), Some(l4)) => match l4.protocol {
            Some(Protocol::Tcp(_)) => "TCP"@,
            Some(Protocol::Udp(_)) => "UDP"@,
            _ => "UNKNOWN"@,
        },
        _ => "UNKNOWN"@,
    }
}

/// The name of a verdict code as the web view shows it.
pub open spec fn verdict_name(verdict: i32) -> Seq<char> {
    if verdict == 1 {
        "FORWARDED"@
    } else if verdict == 2 {
        "DROPPED"@
    } else if verdict == 4 {
        "AUDIT"@
    } else if verdict == 3 {
        "ERROR"@
    } else {
        "UNKNOWN"@
    }
}

/// True when `d` carries what the web view shows of `flow`, whatever its id.
pub open spec fn describes(d: FlowData, flow: Flow) -> bool {
    &&& d.timestamp@ == web_timestamp(flow.time)
    &&& d.source.namespace@ == match flow.source {
        Some(ep) => ep.namespace@,
        None => Seq::empty(),
    }
    &&& d.source.pod@ == match flow.source {
        Some(ep) => ep.pod_name@,
        None => Seq::empty(),
    }
    &&& d.source.ip@ == match flow.ip {
        Some(ip) => ip.source@,
        None => Seq::empty(),
    }
    &&& d.source.port == flow_ports(flow).0
    &&& d.destination.namespace@ == match flow.destination {
        Some(ep) => ep.namespace@,
        None => Seq::empty(),
    }
    &&& d.destination.pod@ == match flow.destination {
        Some(ep) => ep.pod_name@,
        None => Seq::empty(),
    }
    &&& d.destination.ip@ == match flow.ip {
        Some(ip) => ip.destination@,
        None => Seq::empty(),
    }
    &&& d.destination.port == flow_ports(flow).1
    &&& d.protocol@ == protocol_name(flow)
    &&& d.verdict@ == verdict_name(flow.verdict)
}

/// The web record of a flow copies the flow's own fields: the source's namespace and pod
/// name, the destination's namespace and pod name (empty without the endpoint), the source and
/// destination addresses (empty without addresses), the ports and name of a TCP or UDP
/// transport when the flow has addresses (zero and "UNKNOWN" otherwise), and the verdict's name.
pub proof fn law_web_record_fields(d: FlowData, flow: Flow)
    requires
        describes(d, flow),
    ensures
        flow.source matches Some(ep) ==> d.source.namespace@ == ep.namespace@ && d.source.pod@
            == ep.pod_name@,
        flow.source is None ==> d.source.namespace@.len() == 0 && d.source.pod@.len() == 0,
        flow.destination matches Some(ep) ==> d.destination.namespace@ == ep.namespace@
            && d.destination.pod@ == ep.pod_name@,
        flow.destination is None ==> d.destination.namespace@.len() == 0
            && d.destination.pod@.len() == 0,
        flow.ip matches Some(ip) ==> d.source.ip@ == ip.source@ && d.destination.ip@
            == ip.destination@,
        flow.ip is None ==> d.source.ip@.len() == 0 && d.destination.ip@.len() == 0,
        match (flow.ip, flow.l4) {
            (Some(_), Some(l4)) => match l4.protocol {
                Some(Protocol::Tcp(t)) => d.source.port == t.source_port && d.destination.port
                    == t.destination_port && d.protocol@ == "TCP"@,
                Some(Protocol::Udp(u)) => d.source.port == u.source_port && d.destination.port
                    == u.destination_port && d.protocol@ == "UDP"@,
                _ => d.source.port == 0 && d.destination.port == 0 && d.protocol@ == "UNKNOWN"@,
            },
            _ => d.source.port == 0 && d.destination.port == 0 && d.protocol@ == "UNKNOWN"@,
        },
        flow.verdict == 1 ==> d.verdict@ == "FORWARDED"@,
        flow.verdict == 2 ==> d.verdict@ == "DROPPED"@,
        flow.verdict == 3 ==> d.verdict@ == "ERROR"@,
        flow.verdict == 4 ==> d.verdict@ == "AUDIT"@,
        !(1 <= flow.verdict <= 4) ==> d.verdict@ == "UNKNOWN"@,
{
}

/// The web view's record of a stream message: present exactly when the message holds a flow,
/// with id 0 and the fields `describes` names.
pub fn parse_flow_to_web_data(response: &GetFlowsResponse) -> (r: Option<FlowData>)
    ensures
        match response.response_types {
            Some(ResponseTypes::Flow(flow)) => r matches Some(d) && d.id == 0 && describes(d, flow),
            _ => r is None,
        },
{
    if let Some(ResponseTypes::Flow(flow)) = &response.response_types {
        let timestamp = if let Some(time) = &flow.time {
            text_or_fallback(format_utc_timestamp(time.seconds, time.nanos as u32), String::new())
        } else {
            String::new()
        };
        let mut source_ip = String::new();
        let mut dest_ip = String::new();
        let mut source_port: u32 = 0;
        let mut dest_port: u32 = 0;
        let mut source_ns = String::new();
        let mut source_pod = String::new();
        let mut dest_ns = String::new();
        let mut dest_pod = String::new();
        if let Some(ip) = &flow.ip {
            source_ip = ip.source.clone();
            dest_ip = ip.destination.clone();
        }
        if let Some(_ip) = &flow.ip {
            if let Some(l4) = &flow.l4 {
                if let Some(proto) = &l4.protocol {
                    match proto {
                        Protocol::Tcp(tcp) => {
                            source_port = tcp.source_port;
                            dest_port = tcp.destination_port;
                        },
                        Protocol::Udp(udp) => {
                            source_port = udp.source_port;
                            dest_port = udp.destination_port;
                        },
                        _ => {},
                    }
                }
            }
        }
        if let Some(source) = &flow.source {
            source_ns = source.namespace.clone();
            source_pod = source.pod_name.clone();
        }
        if let Some(dest) = &flow.destination {
            dest_ns = dest.namespace.clone();
            dest_pod = dest.pod_name.clone();
        }
        let verdict = if flow.verdict == Verdict::Forwarded.code() {
            "FORWARDED".to_owned()
        } else if flow.verdict == Verdict::Dropped.code() {
            "DROPPED".to_owned()
        } else if flow.verdict == Verdict::Audit.code() {
            "AUDIT".to_owned()
        } else if flow.verdict == Verdict::Error.code() {
            "ERROR".to_owned()
        } else {
            "UNKNOWN".to_owned()
        };
        let protocol = if let Some(_ip) = &flow.ip {
            if let Some(l4) = &flow.l4 {
                if let Some(proto) = &l4.protocol {
                    match proto {
                        Protocol::Tcp(_) => "TCP".to_owned(),
                        Protocol::Udp(_) => "UDP".to_owned(),
                        _ => "UNKNOWN".to_owned(),
                    }
                } else {
                    "UNKNOWN".to_owned()
                }
            } else {
                "UNKNOWN".to_owned()
            }
        } else {
            "UNKNOWN".to_owned()
        };
        Some(
            FlowData {
                id: 0,
                timestamp,
                source: SourceInfo {
                    namespace: source_ns,
                    pod: source_pod,
                    ip: source_ip,
                    port: source_port,
                },
                destination: DestInfo {
                    namespace: dest_ns,
                    pod: dest_pod,
                    ip: dest_ip,
                    port: dest_port,
                },
                protocol,
                verdict,
            },
        )
    } else {
        None
    }
}

/// True when a stream message holds a flow.
pub open spec fn holds_flow(r: GetFlowsResponse) -> bool {
    r.response_types matches Some(ResponseTypes::Flow(_))
}

/// The count of flows seen after one more message.
pub open spec fn next_count(counter: int, r: GetFlowsResponse) -> int {
    if holds_flow(r) {
        counter + 1
    } else {
        counter
    }
}

/// The count of flows after relaying the messages in order, starting from zero.
pub open spec fn count_after(rs: Seq<GetFlowsResponse>) -> int
    decreases rs.len(),
{
    if rs.len() == 0 {
        0
    } else {
        next_count(count_after(rs.drop_last()), rs.last())
    }
}

/// The id that relaying from zero gives the message at position `i`, when it holds a flow.
pub open spec fn stream_id(rs: Seq<GetFlowsResponse>, i: int) -> int {
    count_after(rs.take(i + 1))
}

proof fn lemma_count_monotone(rs: Seq<GetFlowsResponse>, i: int, j: int)
    requires
        0 <= i <= j <= rs.len(),
    ensures
        0 <= count_after(rs.take(i)) <= count_after(rs.take(j)),
    decreases j - i,
{
    if i < j {
        lemma_count_monotone(rs, i, j - 1);
        assert(rs.take(j).drop_last() =~= rs.take(j - 1));
    } else {
        lemma_count_nonnegative(rs.take(i));
    }
}

proof fn lemma_count_nonnegative(rs: Seq<GetFlowsResponse>)
    ensures
        count_after(rs) >= 0,
    decreases rs.len(),
{
    if rs.len() > 0 {
        lemma_count_nonnegative(rs.drop_last());
    }
}

proof fn lemma_flow_steps_count(rs: Seq<GetFlowsResponse>, i: int)
    requires
        0 <= i < rs.len(),
        holds_flow(rs[i]),
    ensures
        stream_id(rs, i) == count_after(rs.take(i)) + 1,
{
    assert(rs.take(i + 1).drop_last() =~= rs.take(i));
    assert(rs.take(i + 1).last() == rs[i]);
}

proof fn lemma_count_is_filter_len(rs: Seq<GetFlowsResponse>)
    ensures
        count_after(rs) == rs.filter(|r: GetFlowsResponse| holds_flow(r)).len(),
    decreases rs.len(),
{
    reveal_with_fuel(Seq::<_>::filter, 1);
    if rs.len() > 0 {
        lemma_count_is_filter_len(rs.drop_last());
    }
}

/// True when some flow of the stream gets the id `k`.
pub open spec fn id_given(rs: Seq<GetFlowsResponse>, k: int) -> bool {
    exists|i: int| 0 <= i < rs.len() && holds_flow(rs[i]) && stream_id(rs, i) == k
}

proof fn lemma_ids_cover(rs: Seq<GetFlowsResponse>, k: int)
    requires
        1 <= k <= count_after(rs),
    ensures
        id_given(rs, k),
    decreases rs.len(),
{
    let init = rs.drop_last();
    if k <= count_after(init) {
        lemma_ids_cover(init, k);
        let i = choose|i: int| 0 <= i < init.len() && holds_flow(init[i]) && stream_id(init, i) == k;
        assert(init.take(i + 1) =~= rs.take(i + 1));
        assert(holds_flow(rs[i]) && stream_id(rs, i) == k);
    } else {
        let i = rs.len() - 1;
        assert(rs.take(i + 1) =~= rs);
        assert(holds_flow(rs[i]) && stream_id(rs, i) == k);
    }
}

/// Relaying a stream from a count of zero numbers its flows 1, 2, ..., m in the order they
/// come, where m is the number of flows: each flow's id is one more than the flows before it,
/// later flows get larger ids, and every number from 1 to m is given to some flow.
pub proof fn law_stream_numbering(rs: Seq<GetFlowsResponse>)
    ensures
        count_after(rs) == rs.filter(|r: GetFlowsResponse| holds_flow(r)).len(),
        forall|i: int|
            0 <= i < rs.len() && holds_flow(rs[i]) ==> 1 <= #[trigger] stream_id(rs, i) <= count_after(
                rs,
            ) && stream_id(rs, i) == count_after(rs.take(i)) + 1,
        forall|i: int, j: int|
            0 <= i < j < rs.len() && holds_flow(rs[i]) && holds_flow(rs[j]) ==> #[trigger] stream_id(
                rs,
                i,
            ) < #[trigger] stream_id(rs, j),
        forall|k: int| 1 <= k <= count_after(rs) ==> #[trigger] id_given(rs, k),
{
    lemma_count_is_filter_len(rs);
    assert(rs.take(rs.len() as int) =~= rs);
    assert forall|i: int| 0 <= i < rs.len() && holds_flow(rs[i]) implies 1 <= #[trigger] stream_id(
        rs,
        i,
    ) <= count_after(rs) && stream_id(rs, i) == count_after(rs.take(i)) + 1 by {
        lemma_flow_steps_count(rs, i);
        lemma_count_monotone(rs, i, i);
        lemma_count_monotone(rs, i + 1, rs.len() as int);
    }
    assert forall|i: int, j: int|
        0 <= i < j < rs.len() && holds_flow(rs[i]) && holds_flow(rs[j]) implies #[trigger] stream_id(
        rs,
        i,
    ) < #[trigger] stream_id(rs, j) by {
        lemma_flow_steps_count(rs, j);
        lemma_count_monotone(rs, i + 1, j);
    }
    assert forall|k: int| 1 <= k <= count_after(rs) implies #[trigger] id_given(rs, k) by {
        lemma_ids_cover(rs, k);
    }
}

/// What the stream relay does with one message: the next count of flows seen, the record to
/// send to web clients, and the text to print on the console (empty when there is none).
pub struct StreamOutput {
    pub counter: u64,
    pub flow_data: Option<FlowData>,
    pub console: String,
}

/// Handles one message of the flow stream: a flow is numbered with the next count and turned
/// into a web record; every message is rendered for the console.
pub fn relay_message(counter: u64, formatter: &FlowFormatter, response: &GetFlowsResponse) -> (r:
    StreamOutput)
    requires
        counter < u64::MAX,
    ensures
        r.console@ == rendered(formatter.colors_on(), *response),
        r.counter == next_count(counter as int, *response),
        r.flow_data matches Some(d) ==> d.id == r.counter,
        match response.response_types {
            Some(ResponseTypes::Flow(flow)) => {
                &&& r.counter == counter + 1
                &&& r.flow_data matches Some(d) && d.id == r.counter && describes(d, flow)
            },
            _ => r.counter == counter && r.flow_data is None,
        },
{
    let mut next = counter;
    let mut flow_data = parse_flow_to_web_data(response);
    if let Some(data) = &mut flow_data {
        next = counter + 1;
        data.id = next;
    }
    let console = formatter.format_flow(response);
    StreamOutput { counter: next, flow_data, console }
}

/// A message that a web client sends over its socket.
pub enum WsMessage {
    Ping(Vec<u8>),
    Pong(Vec<u8>),
    Text(String),
    Binary(Vec<u8>),
    Close,
    Other,
}

/// What the server does in answer to a client message.
pub enum WsReply {
    Pong(Vec<u8>),
    Close,
    Nothing,
}

/// Answers a ping with a pong of the same bytes and a close with a close; ignores the rest.
pub fn ws_reply(msg: WsMessage) -> (r: WsReply)
    ensures
        match msg {
            WsMessage::Ping(bytes) => r == WsReply::Pong(bytes),
            WsMessage::Close => r == WsReply::Close,
            _ => r == WsReply::Nothing,
        },
{
    match msg {
        WsMessage::Ping(bytes) => WsReply::Pong(bytes),
        WsMessage::Close => WsReply::Close,
        _ => WsReply::Nothing,
    }
}

/// What a poll of the broadcast channel gave.
pub enum ChannelPoll {
    Message(String),
    Empty,
    Lagged,
    Closed,
}

/// What to do after polling the broadcast channel.
pub enum DrainStep {
    /// Send the text to the client and poll again.
    Forward(String),
    /// Note that messages were lost and poll again.
    Skip,
    /// Nothing is waiting: stop until the next tick.
    Wait,
    /// The channel is closed: stop.
    Finish,
}

/// Drains the channel: forwards each message, goes on past lost messages, and stops when the
/// channel is empty or closed.
pub fn drain_step(poll: ChannelPoll) -> (r: DrainStep)
    ensures
        match poll {
            ChannelPoll::Message(text) => r == DrainStep::Forward(text),
            ChannelPoll::Empty => r == DrainStep::Wait,
            ChannelPoll::Lagged => r == DrainStep::Skip,
            ChannelPoll::Closed => r == DrainStep::Finish,
        },
{
    match poll {
        ChannelPoll::Message(text) => DrainStep::Forward(text),
        ChannelPoll::Empty => DrainStep::Wait,
        ChannelPoll::Lagged => DrainStep::Skip,
        ChannelPoll::Closed => DrainStep::Finish,
    }
}

} // verus!
