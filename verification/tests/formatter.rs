use cilium_monitor::flow::{
    Dns, Endpoint, Flow, GetFlowsResponse, Http, HttpHeader, Ip, Layer4, Layer7, Protocol, Record,
    ResponseTypes, Service, Tcp, TcpFlags, Timestamp, Udp,
};
use cilium_monitor::formatter::{Color, FlowFormatter, BOX_WIDTH};

fn s(text: &str) -> String {
    text.to_string()
}

fn plain() -> FlowFormatter {
    FlowFormatter::new(false)
}

fn colored() -> FlowFormatter {
    FlowFormatter::new(true)
}

#[test]
fn strip_removes_everything_from_the_first_sequence() {
    assert_eq!(FlowFormatter::strip_ansi_codes("plain text"), "plain text");
    assert_eq!(FlowFormatter::strip_ansi_codes("ab\x1b[31mred\x1b[0m"), "ab");
    assert_eq!(FlowFormatter::strip_ansi_codes("\x1b[1m"), "");
    assert_eq!(FlowFormatter::strip_ansi_codes("a\x1bb"), "a\x1bb");
    assert_eq!(FlowFormatter::strip_ansi_codes("end\x1b"), "end\x1b");
}

#[test]
fn visible_width_counts_utf8_bytes_before_escapes() {
    assert_eq!(FlowFormatter::visible_width("hello"), 5);
    assert_eq!(FlowFormatter::visible_width("h\u{e9}llo"), 6);
    assert_eq!(FlowFormatter::visible_width("\u{2550}"), 3);
    assert_eq!(FlowFormatter::visible_width("ab\x1b[31mlong tail"), 2);
    assert_eq!(FlowFormatter::visible_width(""), 0);
}

#[test]
fn truncate_keeps_fitting_text() {
    assert_eq!(FlowFormatter::truncate_text("hello", 5), "hello");
    assert_eq!(FlowFormatter::truncate_text("hi", 80), "hi");
    assert_eq!(FlowFormatter::truncate_text("", 0), "");
}

#[test]
fn truncate_cuts_and_appends_ellipsis() {
    assert_eq!(FlowFormatter::truncate_text("hello world", 8), "hello...");
    assert_eq!(FlowFormatter::truncate_text("abcdef", 5), "ab...");
    assert_eq!(FlowFormatter::truncate_text("abc", 2), "...");
    assert_eq!(FlowFormatter::truncate_text("abcd", 3), "...");
}

#[test]
fn truncate_counts_characters_while_cutting() {
    // 8 bytes in 4 characters: too wide for 6, so 3 characters are kept.
    assert_eq!(FlowFormatter::truncate_text("\u{e9}\u{e9}\u{e9}\u{e9}", 6), "\u{e9}\u{e9}\u{e9}...");
}

#[test]
fn truncate_copies_escape_sequences_without_their_bracket() {
    let text = "\u{1f600}\u{1f600}\x1b[1mabc";
    assert_eq!(
        FlowFormatter::truncate_text(text, 7),
        "\u{1f600}\u{1f600}\x1b1mab..."
    );
}

#[test]
fn coloured_text_is_never_cut() {
    let f = colored();
    let red = f.color_text("a rather long piece of text", Color::Red);
    assert_eq!(FlowFormatter::visible_width(&red), 0);
    assert_eq!(FlowFormatter::truncate_text(&red, 4), red);
}

#[test]
fn pad_line_fills_to_width() {
    let f = plain();
    assert_eq!(f.pad_line("ab", 5), "ab   ");
    assert_eq!(f.pad_line("abcdef", 5), "abcdef");
    assert_eq!(f.pad_line("\u{e9}", 4), "\u{e9}  ");
}

#[test]
fn box_char_is_double_rule() {
    assert_eq!(FlowFormatter::box_char_h(), "\u{2550}");
}

#[test]
fn draw_box_frames_lines() {
    let f = plain();
    let boxed = f.draw_box(vec![s("one"), s("two")]);
    let rule = "\u{2550}".repeat(80);
    let expected = format!("{}\n{}\n{}\n{}", rule, format!("one{}", " ".repeat(77)), format!("two{}", " ".repeat(77)), rule);
    assert_eq!(boxed, expected);
    for line in boxed.lines() {
        assert_eq!(line.chars().count(), BOX_WIDTH);
    }
}

#[test]
fn draw_box_cuts_long_lines() {
    let f = plain();
    let long = "x".repeat(100);
    let boxed = f.draw_box(vec![long]);
    let lines: Vec<&str> = boxed.lines().collect();
    assert_eq!(lines.len(), 3);
    assert_eq!(lines[1], format!("{}...", "x".repeat(77)));
}

#[test]
fn draw_box_of_nothing_is_two_rules() {
    let f = plain();
    let rule = "\u{2550}".repeat(80);
    assert_eq!(f.draw_box(vec![]), format!("{}\n{}", rule, rule));
}

#[test]
fn draw_section_has_header_and_cut_lines() {
    let f = plain();
    let lines = f.draw_section("SOURCE", vec![s("a"), "y".repeat(90)]);
    assert_eq!(lines.len(), 3);
    assert_eq!(lines[0], "\u{2500} SOURCE \u{2500}");
    assert_eq!(lines[1], "a");
    assert_eq!(lines[2], format!("{}...", "y".repeat(75)));
}

#[test]
fn colours_follow_the_switch() {
    assert_eq!(plain().color_text("x", Color::Red), "x");
    assert_eq!(colored().color_text("x", Color::Red), "\x1b[31mx\x1b[0m");
    assert_eq!(colored().color_text("x", Color::Cyan), "\x1b[36mx\x1b[0m");
    assert_eq!(colored().color_text("x", Color::Ansi256(5)), "\x1b[39mx\x1b[0m");
    assert_eq!(plain().color_bg_text("x", Color::Red, Color::White), "x");
    assert_eq!(colored().color_bg_text("x", Color::Red, Color::White), "\x1b[41;37mx\x1b[0m");
    assert_eq!(colored().color_bg_text("x", Color::Rgb(1, 2, 3), Color::Black), "\x1b[49;30mx\x1b[0m");
}

#[test]
fn drop_reasons_have_names() {
    assert_eq!(FlowFormatter::drop_reason_to_string(0), "Unknown");
    assert_eq!(FlowFormatter::drop_reason_to_string(133), "Policy denied");
    assert_eq!(FlowFormatter::drop_reason_to_string(181), "Policy deny");
    assert_eq!(FlowFormatter::drop_reason_to_string(999), "Drop reason: 999");
    assert_eq!(FlowFormatter::drop_reason_to_string(-5), "Drop reason: -5");
}

#[test]
fn flow_types_have_names() {
    assert_eq!(FlowFormatter::format_flow_type(0), "UNKNOWN");
    assert_eq!(FlowFormatter::format_flow_type(1), "L3_L4");
    assert_eq!(FlowFormatter::format_flow_type(2), "L7");
    assert_eq!(FlowFormatter::format_flow_type(3), "SOCK");
    assert_eq!(FlowFormatter::format_flow_type(9), "UNKNOWN(9)");
    assert_eq!(FlowFormatter::format_flow_type(-2147483648), "UNKNOWN(-2147483648)");
}

#[test]
fn verdict_headline() {
    let f = plain();
    assert_eq!(f.format_verdict(2, 133), "\u{1f6a8} DROPPED - Policy denied");
    assert_eq!(f.format_verdict(1, 0), "\u{2705} FORWARDED");
    assert_eq!(f.format_verdict(7, 0), "\u{26a0}\u{fe0f} UNKNOWN");
    assert_eq!(
        colored().format_verdict(1, 0),
        "\x1b[42;30m\u{2705} FORWARDED\x1b[0m"
    );
}

#[test]
fn timestamps_are_written_in_utc() {
    let f = plain();
    assert_eq!(f.format_timestamp(&Timestamp { seconds: 0, nanos: 0 }), "1970-01-01 00:00:00");
    assert_eq!(
        f.format_timestamp(&Timestamp { seconds: 1431648000, nanos: 0 }),
        "2015-05-15 00:00:00"
    );
    assert_eq!(
        f.format_timestamp(&Timestamp { seconds: 1700000000, nanos: 999 }),
        "2023-11-14 22:13:20"
    );
}

#[test]
fn refused_timestamps_fall_back_to_the_epoch() {
    let f = plain();
    assert_eq!(f.format_timestamp(&Timestamp { seconds: 5, nanos: -1 }), "1970-01-01 00:00:00");
    assert_eq!(
        f.format_timestamp(&Timestamp { seconds: i64::MAX, nanos: 0 }),
        "1970-01-01 00:00:00"
    );
}

fn endpoint(namespace: &str, pod: &str) -> Endpoint {
    Endpoint { namespace: s(namespace), pod_name: s(pod) }
}

#[test]
fn endpoints_name_their_pod() {
    let f = plain();
    assert_eq!(f.format_endpoint(&endpoint("default", "web"), None), vec![s("Pod: default/web")]);
    assert_eq!(f.format_endpoint(&endpoint("", "web"), None), vec![s("Pod: web")]);
    assert_eq!(f.format_endpoint(&endpoint("default", ""), None), vec![s("Pod: Unknown")]);
    let svc = Service { name: s("api") };
    assert_eq!(
        f.format_endpoint(&endpoint("default", "web"), Some(&svc)),
        vec![s("Pod: default/web"), s("Service: api")]
    );
    let unnamed = Service { name: s("") };
    assert_eq!(f.format_endpoint(&endpoint("ns", "p"), Some(&unnamed)), vec![s("Pod: ns/p")]);
    assert_eq!(
        colored().format_endpoint(&endpoint("ns", "p"), None),
        vec![s("Pod: \x1b[36mns/p\x1b[0m")]
    );
}

fn addresses() -> Ip {
    Ip { source: s("10.42.0.1"), destination: s("8.8.8.8") }
}

#[test]
fn tcp_lines_show_ports_and_flags() {
    let f = plain();
    let l4 = Layer4 {
        protocol: Some(Protocol::Tcp(Tcp {
            source_port: 1234,
            destination_port: 53,
            flags: Some(TcpFlags { syn: true, ack: true, fin: false, rst: true, psh: false }),
        })),
    };
    assert_eq!(
        f.format_l4(&l4, &addresses()),
        vec![s("Protocol: TCP"), s("Ports: 1234 \u{2192} 53"), s("Flags: SYN, ACK, RST")]
    );
    let no_flags = Layer4 {
        protocol: Some(Protocol::Tcp(Tcp { source_port: 1, destination_port: 2, flags: None })),
    };
    assert_eq!(f.format_l4(&no_flags, &addresses()), vec![s("Protocol: TCP"), s("Ports: 1 \u{2192} 2")]);
}

#[test]
fn udp_and_other_transport_lines() {
    let f = plain();
    let udp = Layer4 { protocol: Some(Protocol::Udp(Udp { source_port: 5353, destination_port: 53 })) };
    assert_eq!(f.format_l4(&udp, &addresses()), vec![s("Protocol: UDP"), s("Ports: 5353 \u{2192} 53")]);
    let other = Layer4 { protocol: Some(Protocol::Other) };
    assert!(f.format_l4(&other, &addresses()).is_empty());
    let none = Layer4 { protocol: None };
    assert!(f.format_l4(&none, &addresses()).is_empty());
}

fn header(key: &str, value: &str) -> HttpHeader {
    HttpHeader { key: s(key), value: s(value) }
}

#[test]
fn http_lines() {
    let f = plain();
    let http = Http {
        code: 404,
        method: s("GET"),
        url: s("/index.html"),
        headers: vec![header("Host", "example.com"), header("", "x"), header("Accept", "")],
    };
    assert_eq!(
        f.format_http(&http),
        vec![s("GET /index.html \u{2192} 404 Not Found"), s("Headers:"), s("  Host: example.com")]
    );
    let other = Http { code: 302, method: s("POST"), url: s("/"), headers: vec![] };
    assert_eq!(f.format_http(&other), vec![s("POST / \u{2192} 302")]);
    let ok = Http { code: 200, method: s("GET"), url: s("/"), headers: vec![] };
    assert_eq!(f.format_http(&ok), vec![s("GET / \u{2192} 200 OK")]);
    let err = Http { code: 500, method: s("GET"), url: s("/"), headers: vec![] };
    assert_eq!(f.format_http(&err), vec![s("GET / \u{2192} 500 Internal Server Error")]);
}

#[test]
fn http_header_values_are_cut_to_half_width() {
    let f = plain();
    let http = Http { code: 200, method: s("GET"), url: s("/"), headers: vec![header("k", &"v".repeat(40))] };
    let lines = f.format_http(&http);
    assert_eq!(lines[2], format!("  k: {}...", "v".repeat(32)));
}

fn dns() -> Dns {
    Dns {
        query: s("example.com."),
        ips: vec![s("93.184.216.34"), s("2606::1")],
        ttl: 300,
        cnames: vec![s("alias.example.com.")],
        observation_source: s("proxy"),
        rcode: 3,
        qtypes: vec![s("A"), s("AAAA")],
        rrtypes: vec![s("A")],
    }
}

#[test]
fn dns_lines() {
    let f = plain();
    assert_eq!(
        f.format_dns(&dns()),
        vec![
            s("Query: example.com."),
            s("QTypes: A, AAAA"),
            s("Response IPs:"),
            s("  - 93.184.216.34"),
            s("  - 2606::1"),
            s("RRTypes: A"),
            s("CNames:"),
            s("  - alias.example.com."),
            s("TTL: 300s"),
            s("RCODE: 3"),
            s("Observation Source: proxy"),
        ]
    );
}

#[test]
fn bare_dns_has_only_its_query() {
    let f = plain();
    let d = Dns {
        query: s("q"),
        ips: vec![],
        ttl: 0,
        cnames: vec![],
        observation_source: s(""),
        rcode: 0,
        qtypes: vec![],
        rrtypes: vec![],
    };
    assert_eq!(f.format_dns(&d), vec![s("Query: q")]);
}

#[test]
fn l7_lines_add_latency_in_milliseconds() {
    let f = plain();
    let l7 = Layer7 { record: Some(Record::Dns(dns())), latency_ns: 2_500_000 };
    let lines = f.format_l7(&l7);
    assert_eq!(lines.last().unwrap(), "Latency: 2ms");
    assert_eq!(lines.len(), 12);
    let bare = Layer7 { record: None, latency_ns: 0 };
    assert!(f.format_l7(&bare).is_empty());
    let other = Layer7 { record: Some(Record::Other), latency_ns: 999_999 };
    assert_eq!(f.format_l7(&other), vec![s("Latency: 0ms")]);
}

fn sample_flow() -> Flow {
    Flow {
        time: Some(Timestamp { seconds: 0, nanos: 0 }),
        verdict: 1,
        drop_reason_desc: 0,
        ip: Some(addresses()),
        l4: Some(Layer4 {
            protocol: Some(Protocol::Tcp(Tcp {
                source_port: 1234,
                destination_port: 53,
                flags: Some(TcpFlags { syn: true, ack: true, fin: false, rst: false, psh: false }),
            })),
        }),
        source: Some(endpoint("default", "web")),
        destination: None,
        flow_type: 1,
        node_name: s("node-1"),
        l7: None,
        source_service: None,
        destination_service: None,
        traffic_direction: 1,
    }
}

fn boxed(lines: &[&str]) -> String {
    let rule = "\u{2550}".repeat(80);
    let mut out = vec![rule.clone()];
    for l in lines {
        out.push(format!("{}{}", l, " ".repeat(80 - l.len())));
    }
    out.push(rule);
    out.join("\n")
}

#[test]
fn format_flow_draws_the_whole_box() {
    let f = plain();
    let response = GetFlowsResponse { response_types: Some(ResponseTypes::Flow(sample_flow())) };
    let expected = boxed(&[
        "Time: 1970-01-01 00:00:00",
        "Node: node-1",
        "Direction: Ingress",
        "Type: L3_L4",
        "",
        "\u{2500} SOURCE \u{2500}",
        "Pod: default/web",
        "",
        "\u{2500} IP \u{2500}",
        "Source IP: 10.42.0.1",
        "Dest IP: 8.8.8.8",
        "",
        "\u{2500} LAYER 4 \u{2500}",
        "Protocol: TCP",
        "Ports: 1234 \u{2192} 53",
        "Flags: SYN, ACK",
        "",
        "Action: \u{2705} FORWARDED",
    ]);
    assert_eq!(f.format_flow(&response), expected);
}

#[test]
fn format_flow_with_application_layer_and_drop() {
    let f = plain();
    let mut flow = sample_flow();
    flow.time = None;
    flow.node_name = s("");
    flow.traffic_direction = 2;
    flow.verdict = 2;
    flow.source = None;
    flow.destination = Some(endpoint("kube-system", "dns"));
    flow.destination_service = Some(Service { name: s("kube-dns") });
    flow.l4 = None;
    flow.l7 = Some(Layer7 {
        record: Some(Record::Http(Http { code: 200, method: s("GET"), url: s("/"), headers: vec![] })),
        latency_ns: 0,
    });
    let response = GetFlowsResponse { response_types: Some(ResponseTypes::Flow(flow)) };
    let expected = boxed(&[
        "Direction: Egress",
        "Type: L3_L4",
        "",
        "\u{2500} DESTINATION \u{2500}",
        "Pod: kube-system/dns",
        "Service: kube-dns",
        "",
        "\u{2500} IP \u{2500}",
        "Source IP: 10.42.0.1",
        "Dest IP: 8.8.8.8",
        "",
        "\u{2500} LAYER 7 (HTTP) \u{2500}",
        "GET / \u{2192} 200 OK",
        "",
        "Action: \u{1f6a8} DROPPED",
    ]);
    assert_eq!(f.format_flow(&response), expected);
}

#[test]
fn empty_application_layer_leaves_a_blank_line() {
    let f = plain();
    let mut flow = sample_flow();
    flow.ip = None;
    flow.source = None;
    flow.time = None;
    flow.node_name = s("");
    flow.traffic_direction = 0;
    flow.flow_type = 2;
    flow.verdict = 0;
    flow.l7 = Some(Layer7 { record: None, latency_ns: 0 });
    let response = GetFlowsResponse { response_types: Some(ResponseTypes::Flow(flow)) };
    let expected = boxed(&[
        "Direction: Unknown",
        "Type: L7",
        "",
        "",
        "Action: \u{26a0}\u{fe0f} UNKNOWN",
    ]);
    assert_eq!(f.format_flow(&response), expected);
}

#[test]
fn messages_without_flow_render_nothing() {
    let f = plain();
    assert_eq!(f.format_flow(&GetFlowsResponse { response_types: None }), "");
    assert_eq!(
        f.format_flow(&GetFlowsResponse { response_types: Some(ResponseTypes::NodeStatus) }),
        ""
    );
    assert_eq!(
        f.format_flow(&GetFlowsResponse { response_types: Some(ResponseTypes::LostEvents) }),
        ""
    );
}

#[test]
fn section_headers_show_only_for_present_parts_and_in_order() {
    let f = plain();
    let mut flow = sample_flow();
    flow.source = None;
    flow.l7 = Some(Layer7 {
        record: Some(Record::Http(Http {
            code: 404,
            method: s("\u{2500} SOURCE \u{2500}"),
            url: s(""),
            headers: vec![],
        })),
        latency_ns: 0,
    });
    let out = f.format_flow(&GetFlowsResponse { response_types: Some(ResponseTypes::Flow(flow)) });
    let lines: Vec<&str> = out.split('\n').collect();
    let ruled: Vec<&str> =
        lines.iter().map(|l| l.trim()).filter(|l| l.starts_with('\u{2500}')).collect();
    assert_eq!(
        ruled,
        vec![
            "\u{2500} IP \u{2500}",
            "\u{2500} LAYER 4 \u{2500}",
            "\u{2500} LAYER 7 (HTTP) \u{2500}",
            "\u{2500} SOURCE \u{2500}  \u{2192} 404 Not Found",
        ]
    );
    assert!(!lines.iter().any(|l| l.trim() == "\u{2500} SOURCE \u{2500}"));
    assert!(lines[lines.len() - 2].starts_with("Action: "));
}

#[test]
fn plain_box_holds_no_escape() {
    let response = GetFlowsResponse { response_types: Some(ResponseTypes::Flow(sample_flow())) };
    assert!(!plain().format_flow(&response).contains('\x1b'));
    assert!(colored().format_flow(&response).contains('\x1b'));
}
