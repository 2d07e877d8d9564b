use cilium_monitor::flow::{
    Endpoint, Flow, GetFlowsResponse, Ip, Layer4, Protocol, ResponseTypes, Tcp, Timestamp, Udp,
};
use cilium_monitor::formatter::FlowFormatter;
use cilium_monitor::web::{
    drain_step, parse_flow_to_web_data, relay_message, ws_reply, ChannelPoll, DrainStep,
    WsMessage, WsReply,
};

fn flow(verdict: i32, ip: Option<Ip>, l4: Option<Layer4>) -> Flow {
    Flow {
        time: Some(Timestamp { seconds: 1431648000, nanos: 0 }),
        verdict,
        drop_reason_desc: 0,
        ip,
        l4,
        source: Some(Endpoint { namespace: "default".to_string(), pod_name: "web".to_string() }),
        destination: None,
        flow_type: 1,
        node_name: String::new(),
        l7: None,
        source_service: None,
        destination_service: None,
        traffic_direction: 1,
    }
}

fn addresses() -> Option<Ip> {
    Some(Ip { source: "10.42.0.1".to_string(), destination: "1.1.1.1".to_string() })
}

fn respond(f: Flow) -> GetFlowsResponse {
    GetFlowsResponse { response_types: Some(ResponseTypes::Flow(f)) }
}

#[test]
fn web_record_of_a_tcp_flow() {
    let l4 = Layer4 { protocol: Some(Protocol::Tcp(Tcp { source_port: 40000, destination_port: 443, flags: None })) };
    let data = parse_flow_to_web_data(&respond(flow(1, addresses(), Some(l4)))).unwrap();
    assert_eq!(data.id, 0);
    assert_eq!(data.timestamp, "2015-05-15 00:00:00");
    assert_eq!(data.source.namespace, "default");
    assert_eq!(data.source.pod, "web");
    assert_eq!(data.source.ip, "10.42.0.1");
    assert_eq!(data.source.port, 40000);
    assert_eq!(data.destination.namespace, "");
    assert_eq!(data.destination.pod, "");
    assert_eq!(data.destination.ip, "1.1.1.1");
    assert_eq!(data.destination.port, 443);
    assert_eq!(data.protocol, "TCP");
    assert_eq!(data.verdict, "FORWARDED");
}

#[test]
fn web_record_verdicts_and_protocols() {
    let udp = Layer4 { protocol: Some(Protocol::Udp(Udp { source_port: 1, destination_port: 2 })) };
    let d = parse_flow_to_web_data(&respond(flow(2, addresses(), Some(udp)))).unwrap();
    assert_eq!((d.protocol.as_str(), d.verdict.as_str()), ("UDP", "DROPPED"));
    assert_eq!((d.source.port, d.destination.port), (1, 2));
    let d = parse_flow_to_web_data(&respond(flow(3, addresses(), None))).unwrap();
    assert_eq!((d.protocol.as_str(), d.verdict.as_str()), ("UNKNOWN", "ERROR"));
    let d = parse_flow_to_web_data(&respond(flow(4, None, None))).unwrap();
    assert_eq!(d.verdict, "AUDIT");
    assert_eq!(d.source.ip, "");
    let d = parse_flow_to_web_data(&respond(flow(6, None, None))).unwrap();
    assert_eq!(d.verdict, "UNKNOWN");
}

#[test]
fn ports_need_addresses() {
    let tcp = Layer4 { protocol: Some(Protocol::Tcp(Tcp { source_port: 7, destination_port: 8, flags: None })) };
    let d = parse_flow_to_web_data(&respond(flow(1, None, Some(tcp)))).unwrap();
    assert_eq!((d.source.port, d.destination.port), (0, 0));
    assert_eq!(d.protocol, "UNKNOWN");
}

#[test]
fn refused_time_gives_empty_timestamp() {
    let mut f = flow(1, None, None);
    f.time = Some(Timestamp { seconds: 0, nanos: -1 });
    assert_eq!(parse_flow_to_web_data(&respond(f)).unwrap().timestamp, "");
    let mut g = flow(1, None, None);
    g.time = None;
    assert_eq!(parse_flow_to_web_data(&respond(g)).unwrap().timestamp, "");
}

#[test]
fn non_flow_messages_give_no_record() {
    assert!(parse_flow_to_web_data(&GetFlowsResponse { response_types: None }).is_none());
    assert!(parse_flow_to_web_data(&GetFlowsResponse { response_types: Some(ResponseTypes::LostEvents) }).is_none());
}

#[test]
fn relay_numbers_flows_one_by_one() {
    let formatter = FlowFormatter::new(false);
    let first = relay_message(0, &formatter, &respond(flow(1, addresses(), None)));
    assert_eq!(first.counter, 1);
    assert_eq!(first.flow_data.as_ref().unwrap().id, 1);
    assert!(!first.console.is_empty());
    let skipped = relay_message(first.counter, &formatter, &GetFlowsResponse { response_types: Some(ResponseTypes::NodeStatus) });
    assert_eq!(skipped.counter, 1);
    assert!(skipped.flow_data.is_none());
    assert_eq!(skipped.console, "");
    let second = relay_message(skipped.counter, &formatter, &respond(flow(2, None, None)));
    assert_eq!(second.counter, 2);
    assert_eq!(second.flow_data.unwrap().id, 2);
}

#[test]
fn socket_replies() {
    assert!(matches!(ws_reply(WsMessage::Ping(vec![1, 2])), WsReply::Pong(b) if b == vec![1, 2]));
    assert!(matches!(ws_reply(WsMessage::Close), WsReply::Close));
    assert!(matches!(ws_reply(WsMessage::Text("hi".to_string())), WsReply::Nothing));
    assert!(matches!(ws_reply(WsMessage::Binary(vec![])), WsReply::Nothing));
    assert!(matches!(ws_reply(WsMessage::Pong(vec![])), WsReply::Nothing));
}

#[test]
fn channel_draining() {
    assert!(matches!(drain_step(ChannelPoll::Message("m".to_string())), DrainStep::Forward(t) if t == "m"));
    assert!(matches!(drain_step(ChannelPoll::Empty), DrainStep::Wait));
    assert!(matches!(drain_step(ChannelPoll::Lagged), DrainStep::Skip));
    assert!(matches!(drain_step(ChannelPoll::Closed), DrainStep::Finish));
}
