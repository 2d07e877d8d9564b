use vstd::prelude::*;
use crate::clock::{date_time_char, epoch_text};
use crate::flow::{
    Dns, Endpoint, Flow, GetFlowsResponse, Http, HttpHeader, Layer4, Layer7, Protocol, Record,
    ResponseTypes, Service,
};
use crate::formatter::{
    action_line, bg_code, box_line, box_rule, boxed, padded, rendered, BOX_WIDTH, content_width, direction_text, dns_cname_lines, dns_ip_lines, dns_lines,
    dns_tail_lines, endpoint_lines, endpoint_section, esc, fg_code, flag_names, flow_header_lines,
    flow_lines, flow_type_text, header_line, header_lines, http_lines, http_status_text,
    ip_section, joined_line, l4_lines, l4_section, l7_kind, l7_lines, l7_section, painted,
    pod_display, port_lines, section, section_header, time_text_plain, timestamp_text, truncated,
    verdict_style, visible_len, Color,
};
use crate::laws::{
    law_box_split_lines, law_plain_text_width, lemma_box_line_lacks, lemma_box_rule_lacks,
    lemma_byte_len_le_four_times, lemma_spaces, lemma_truncate_scan_lacks, no_escape,
};
use crate::text::{
    byte_len, decimal, joined, lacks, lemma_decimal_ascii, lemma_lacks_concat, repeat_seq,
    signed_decimal, split_lines, views,
};

verus! {

/// True when none of the lines holds the character `c`.
pub open spec fn lines_lack(lines: Seq<Seq<char>>, c: char) -> bool {
    forall|i: int| 0 <= i < lines.len() ==> lacks(#[trigger] lines[i], c)
}

/// True when none of the strings holds the character `c`.
pub open spec fn strings_lack(v: Seq<String>, c: char) -> bool {
    forall|i: int| 0 <= i < v.len() ==> lacks(#[trigger] v[i]@, c)
}

/// The characters that the rendering never brings in by itself: a newline always, and the
/// escape character when colours are off.
pub open spec fn not_brought_in(on: bool, c: char) -> bool {
    c == '\n' || (c == esc() && !on)
}

pub open spec fn endpoint_lacks(ep: Option<Endpoint>, c: char) -> bool {
    match ep {
        Some(e) => lacks(e.namespace@, c) && lacks(e.pod_name@, c),
        None => true,
    }
}

pub open spec fn service_lacks(svc: Option<Service>, c: char) -> bool {
    match svc {
        Some(s) => lacks(s.name@, c),
        None => true,
    }
}

pub open spec fn headers_lack(hs: Seq<HttpHeader>, c: char) -> bool {
    forall|i: int| 0 <= i < hs.len() ==> lacks(#[trigger] hs[i].key@, c) && lacks(hs[i].value@, c)
}

pub open spec fn l7_lacks(l7: Option<Layer7>, c: char) -> bool {
    match l7 {
        Some(l) => match l.record {
            Some(Record::Http(h)) => lacks(h.method@, c) && lacks(h.url@, c) && headers_lack(
                h.headers@,
                c,
            ),
            Some(Record::Dns(d)) => {
                &&& lacks(d.query@, c)
                &&& lacks(d.observation_source@, c)
                &&& strings_lack(d.ips@, c)
                &&& strings_lack(d.cnames@, c)
                &&& strings_lack(d.qtypes@, c)
                &&& strings_lack(d.rrtypes@, c)
            },
            _ => true,
        },
        None => true,
    }
}

/// True when no text that a flow carries holds the character `c`.
pub open spec fn flow_lacks(flow: Flow, c: char) -> bool {
    &&& lacks(flow.node_name@, c)
    &&& endpoint_lacks(flow.source, c)
    &&& endpoint_lacks(flow.destination, c)
    &&& service_lacks(flow.source_service, c)
    &&& service_lacks(flow.destination_service, c)
    &&& match flow.ip {
        Some(ip) => lacks(ip.source@, c) && lacks(ip.destination@, c),
        None => true,
    }
    &&& l7_lacks(flow.l7, c)
}

pub broadcast proof fn lemma_lines_lack_concat(a: Seq<Seq<char>>, b: Seq<Seq<char>>, c: char)
    ensures
        #[trigger] lines_lack(a + b, c) == (lines_lack(a, c) && lines_lack(b, c)),
{
    if lines_lack(a, c) && lines_lack(b, c) {
        assert forall|i: int| 0 <= i < (a + b).len() implies lacks(#[trigger] (a + b)[i], c) by {
            if i >= a.len() {
                assert((a + b)[i] == b[i - a.len()]);
            } else {
                assert((a + b)[i] == a[i]);
            }
        }
    }
    if lines_lack(a + b, c) {
        assert forall|i: int| 0 <= i < b.len() implies lacks(#[trigger] b[i], c) by {
            assert((a + b)[a.len() + i] == b[i]);
        }
        assert forall|i: int| 0 <= i < a.len() implies lacks(#[trigger] a[i], c) by {
            assert((a + b)[i] == a[i]);
        }
    }
}

/// The fixed texts of the rendering hold neither a newline nor an escape character.
proof fn lemma_fixed_texts(c: char)
    requires
        c == '\n' || c == esc(),
    ensures
        lacks("Time: "@, c),
        lacks("Node: "@, c),
        lacks("Direction: "@, c),
        lacks("Ingress"@, c),
        lacks("Egress"@, c),
        lacks("Unknown"@, c),
        lacks("Type: "@, c),
        lacks("UNKNOWN"@, c),
        lacks("L3_L4"@, c),
        lacks("L7"@, c),
        lacks("SOCK"@, c),
        lacks("UNKNOWN("@, c),
        lacks(")"@, c),
        lacks("Pod: "@, c),
        lacks("/"@, c),
        lacks("Service: "@, c),
        lacks("Source IP: "@, c),
        lacks("Dest IP: "@, c),
        lacks("IP"@, c),
        lacks("SOURCE"@, c),
        lacks("DESTINATION"@, c),
        lacks("LAYER 4"@, c),
        lacks("LAYER 7 ("@, c),
        lacks("HTTP"@, c),
        lacks("DNS"@, c),
        lacks("\u{2500} "@, c),
        lacks(" \u{2500}"@, c),
        lacks("Protocol: "@, c),
        lacks("TCP"@, c),
        lacks("UDP"@, c),
        lacks("Ports: "@, c),
        lacks(" \u{2192} "@, c),
        lacks("Flags: "@, c),
        lacks("SYN"@, c),
        lacks("ACK"@, c),
        lacks("FIN"@, c),
        lacks("RST"@, c),
        lacks("PSH"@, c),
        lacks(", "@, c),
        lacks(" "@, c),
        lacks("200 OK"@, c),
        lacks("404 Not Found"@, c),
        lacks("500 Internal Server Error"@, c),
        lacks("Headers:"@, c),
        lacks("  "@, c),
        lacks(": "@, c),
        lacks("Query: "@, c),
        lacks("QTypes: "@, c),
        lacks("Response IPs:"@, c),
        lacks("  - "@, c),
        lacks("RRTypes: "@, c),
        lacks("CNames:"@, c),
        lacks("TTL: "@, c),
        lacks("s"@, c),
        lacks("RCODE: "@, c),
        lacks("Observation Source: "@, c),
        lacks("Latency: "@, c),
        lacks("ms"@, c),
        lacks("Action: "@, c),
        lacks("\u{1f6a8}"@, c),
        lacks("\u{2705}"@, c),
        lacks("\u{26a0}\u{fe0f}"@, c),
        lacks("DROPPED"@, c),
        lacks("FORWARDED"@, c),
        lacks(epoch_text(), c),
        lacks("..."@, c),
{
    reveal_strlit("Time: ");
    reveal_strlit("Node: ");
    reveal_strlit("Direction: ");
    reveal_strlit("Ingress");
    reveal_strlit("Egress");
    reveal_strlit("Unknown");
    reveal_strlit("Type: ");
    reveal_strlit("UNKNOWN");
    reveal_strlit("L3_L4");
    reveal_strlit("L7");
    reveal_strlit("SOCK");
    reveal_strlit("UNKNOWN(");
    reveal_strlit(")");
    reveal_strlit("Pod: ");
    reveal_strlit("/");
    reveal_strlit("Service: ");
    reveal_strlit("Source IP: ");
    reveal_strlit("Dest IP: ");
    reveal_strlit("IP");
    reveal_strlit("SOURCE");
    reveal_strlit("DESTINATION");
    reveal_strlit("LAYER 4");
    reveal_strlit("LAYER 7 (");
    reveal_strlit("HTTP");
    reveal_strlit("DNS");
    reveal_strlit("\u{2500} ");
    reveal_strlit(" \u{2500}");
    reveal_strlit("Protocol: ");
    reveal_strlit("TCP");
    reveal_strlit("UDP");
    reveal_strlit("Ports: ");
    reveal_strlit(" \u{2192} ");
    reveal_strlit("Flags: ");
    reveal_strlit("SYN");
    reveal_strlit("ACK");
    reveal_strlit("FIN");
    reveal_strlit("RST");
    reveal_strlit("PSH");
    reveal_strlit(", ");
    reveal_strlit(" ");
    reveal_strlit("200 OK");
    reveal_strlit("404 Not Found");
    reveal_strlit("500 Internal Server Error");
    reveal_strlit("Headers:");
    reveal_strlit("  ");
    reveal_strlit(": ");
    reveal_strlit("Query: ");
    reveal_strlit("QTypes: ");
    reveal_strlit("Response IPs:");
    reveal_strlit("  - ");
    reveal_strlit("RRTypes: ");
    reveal_strlit("CNames:");
    reveal_strlit("TTL: ");
    reveal_strlit("s");
    reveal_strlit("RCODE: ");
    reveal_strlit("Observation Source: ");
    reveal_strlit("Latency: ");
    reveal_strlit("ms");
    reveal_strlit("Action: ");
    reveal_strlit("\u{1f6a8}");
    reveal_strlit("\u{2705}");
    reveal_strlit("\u{26a0}\u{fe0f}");
    reveal_strlit("DROPPED");
    reveal_strlit("FORWARDED");
    reveal_strlit("1970-01-01 00:00:00");
    reveal_strlit("...");
}

/// The colour codes hold no newline.
proof fn lemma_codes_lack_newline(col: Color)
    ensures
        lacks(fg_code(col), '\n'),
        lacks(bg_code(col), '\n'),
        lacks("\x1b["@, '\n'),
        lacks("m"@, '\n'),
        lacks(";"@, '\n'),
        lacks("\x1b[0m"@, '\n'),
{
    reveal_strlit("\x1b[");
    reveal_strlit("m");
    reveal_strlit(";");
    reveal_strlit("\x1b[0m");
    reveal_strlit("30");
    reveal_strlit("31");
    reveal_strlit("32");
    reveal_strlit("33");
    reveal_strlit("34");
    reveal_strlit("35");
    reveal_strlit("36");
    reveal_strlit("37");
    reveal_strlit("39");
    reveal_strlit("40");
    reveal_strlit("41");
    reveal_strlit("42");
    reveal_strlit("43");
    reveal_strlit("44");
    reveal_strlit("45");
    reveal_strlit("46");
    reveal_strlit("47");
    reveal_strlit("49");
}

pub proof fn lemma_truncated_lacks(s: Seq<char>, w: nat, c: char)
    requires
        lacks(s, c),
        c != '.',
    ensures
        lacks(truncated(s, w), c),
{
    if visible_len(s) > w {
        lemma_truncate_scan_lacks(s, if w >= 3 { (w - 3) as nat } else { 0 }, false, c);
    }
}

pub proof fn lemma_painted_lacks(on: bool, s: Seq<char>, col: Color, c: char)
    requires
        lacks(s, c),
        not_brought_in(on, c),
    ensures
        lacks(painted(on, s, col), c),
{
    broadcast use lemma_lacks_concat;

    if on {
        lemma_codes_lack_newline(col);
    }
}

pub proof fn lemma_decimal_lacks(n: nat, c: char)
    requires
        c == '\n' || c == esc(),
    ensures
        lacks(decimal(n), c),
        lacks(signed_decimal(n as int), c),
{
    lemma_decimal_ascii(n);
}

proof fn lemma_signed_decimal_lacks(n: int, c: char)
    requires
        c == '\n' || c == esc(),
    ensures
        lacks(signed_decimal(n), c),
{
    broadcast use lemma_lacks_concat;

    if n < 0 {
        lemma_decimal_ascii((-n) as nat);
    } else {
        lemma_decimal_ascii(n as nat);
    }
}

pub proof fn lemma_joined_lacks(lines: Seq<Seq<char>>, sep: Seq<char>, c: char)
    requires
        lines_lack(lines, c),
        lacks(sep, c),
    ensures
        lacks(joined(lines, sep), c),
    decreases lines.len(),
{
    broadcast use lemma_lacks_concat;

    if lines.len() > 1 {
        let init = lines.drop_last();
        assert(lines_lack(init, c)) by {
            assert forall|i: int| 0 <= i < init.len() implies lacks(#[trigger] init[i], c) by {
                assert(init[i] == lines[i]);
            }
        }
        lemma_joined_lacks(init, sep, c);
        assert(lacks(lines.last(), c));
    } else if lines.len() == 1 {
        assert(lacks(lines[0], c));
    }
}

proof fn lemma_views_lack(v: Seq<String>, c: char)
    requires
        strings_lack(v, c),
    ensures
        lines_lack(views(v), c),
{
    assert forall|i: int| 0 <= i < views(v).len() implies lacks(#[trigger] views(v)[i], c) by {
        assert(views(v)[i] == v[i]@);
    }
}

proof fn lemma_section_lacks(title: Seq<char>, content: Seq<Seq<char>>, c: char)
    requires
        lacks(title, c),
        lines_lack(content, c),
        c == '\n' || c == esc(),
    ensures
        lines_lack(section(title, content), c),
{
    broadcast use lemma_lacks_concat, lemma_lines_lack_concat;

    lemma_fixed_texts(c);
    let cut = content.map_values(|l: Seq<char>| truncated(l, 78));
    assert forall|i: int| 0 <= i < cut.len() implies lacks(#[trigger] cut[i], c) by {
        lemma_truncated_lacks(content[i], 78, c);
    }
    assert(lines_lack(seq![section_header(title)], c));
    assert(section(title, content) == seq![section_header(title)] + cut);
}

proof fn lemma_endpoint_lacks(on: bool, ep: Endpoint, svc: Option<Service>, c: char)
    requires
        endpoint_lacks(Some(ep), c),
        service_lacks(svc, c),
        not_brought_in(on, c),
    ensures
        lines_lack(endpoint_lines(on, ep, svc), c),
{
    broadcast use lemma_lacks_concat, lemma_lines_lack_concat;

    lemma_fixed_texts(c);
    lemma_truncated_lacks(pod_display(ep), content_width(), c);
    lemma_painted_lacks(on, truncated(pod_display(ep), content_width()), Color::Cyan, c);
    if let Some(s) = svc {
        lemma_truncated_lacks(s.name@, content_width(), c);
    }
    assert(lines_lack(
        seq!["Pod: "@ + painted(on, truncated(pod_display(ep), content_width()), Color::Cyan)],
        c,
    ));
}

proof fn lemma_l4_lacks(on: bool, l4: Layer4, c: char)
    requires
        not_brought_in(on, c),
    ensures
        lines_lack(l4_lines(on, l4), c),
{
    broadcast use lemma_lacks_concat, lemma_lines_lack_concat;

    lemma_fixed_texts(c);
    match l4.protocol {
        Some(Protocol::Tcp(tcp)) => {
            lemma_decimal_lacks(tcp.source_port as nat, c);
            lemma_decimal_lacks(tcp.destination_port as nat, c);
            lemma_painted_lacks(on, "TCP"@, Color::Blue, c);
            lemma_painted_lacks(on, decimal(tcp.source_port as nat), Color::Yellow, c);
            lemma_painted_lacks(on, decimal(tcp.destination_port as nat), Color::Yellow, c);
            let names = flag_names(tcp.flags);
            assert(lines_lack(names, c));
            lemma_joined_lacks(names, ", "@, c);
            assert(lines_lack(port_lines(on, "TCP"@, tcp.source_port, tcp.destination_port), c));
        },
        Some(Protocol::Udp(udp)) => {
            lemma_decimal_lacks(udp.source_port as nat, c);
            lemma_decimal_lacks(udp.destination_port as nat, c);
            lemma_painted_lacks(on, "UDP"@, Color::Blue, c);
            lemma_painted_lacks(on, decimal(udp.source_port as nat), Color::Yellow, c);
            lemma_painted_lacks(on, decimal(udp.destination_port as nat), Color::Yellow, c);
            assert(lines_lack(port_lines(on, "UDP"@, udp.source_port, udp.destination_port), c));
        },
        _ => {},
    }
}

proof fn lemma_header_lines_lack(hs: Seq<HttpHeader>, c: char)
    requires
        headers_lack(hs, c),
        c == '\n' || c == esc(),
    ensures
        lines_lack(header_lines(hs), c),
    decreases hs.len(),
{
    broadcast use lemma_lacks_concat, lemma_lines_lack_concat;

    if hs.len() > 0 {
        let init = hs.drop_last();
        assert(headers_lack(init, c)) by {
            assert forall|i: int| 0 <= i < init.len() implies lacks(#[trigger] init[i].key@, c)
                && lacks(init[i].value@, c) by {
                assert(init[i] == hs[i]);
            }
        }
        lemma_header_lines_lack(init, c);
        let h = hs.last();
        assert(lacks(h.key@, c) && lacks(h.value@, c));
        lemma_fixed_texts(c);
        lemma_truncated_lacks(h.key@, content_width() / 2, c);
        lemma_truncated_lacks(h.value@, content_width() / 2, c);
        assert(lacks(header_line(h), c));
        assert(lines_lack(seq![header_line(h)], c));
    }
}

proof fn lemma_http_lacks(on: bool, http: Http, c: char)
    requires
        lacks(http.method@, c),
        lacks(http.url@, c),
        headers_lack(http.headers@, c),
        not_brought_in(on, c),
    ensures
        lines_lack(http_lines(on, http), c),
{
    broadcast use lemma_lacks_concat, lemma_lines_lack_concat;

    lemma_fixed_texts(c);
    lemma_painted_lacks(on, http.method@, Color::Yellow, c);
    lemma_truncated_lacks(http.url@, content_width(), c);
    lemma_decimal_lacks(http.code as nat, c);
    assert(lacks(http_status_text(http.code), c));
    lemma_header_lines_lack(http.headers@, c);
    let first = painted(on, http.method@, Color::Yellow) + " "@ + truncated(
        http.url@,
        content_width(),
    ) + " \u{2192} "@ + http_status_text(http.code);
    assert(lines_lack(seq![first], c));
    assert(lines_lack(seq!["Headers:"@], c));
}

proof fn lemma_joined_line_lacks(label: Seq<char>, items: Seq<String>, c: char)
    requires
        lacks(label, c),
        strings_lack(items, c),
        c == '\n' || c == esc(),
    ensures
        lines_lack(joined_line(label, items), c),
{
    broadcast use lemma_lacks_concat;

    lemma_fixed_texts(c);
    lemma_views_lack(items, c);
    lemma_joined_lacks(views(items), ", "@, c);
    lemma_truncated_lacks(joined(views(items), ", "@), content_width(), c);
    if items.len() != 0 {
        assert(lacks(joined_line(label, items)[0], c));
    }
}

proof fn lemma_dns_lacks(on: bool, dns: Dns, c: char)
    requires
        l7_lacks(Some(Layer7 { record: Some(Record::Dns(dns)), latency_ns: 0 }), c),
        not_brought_in(on, c),
    ensures
        lines_lack(dns_lines(on, dns), c),
{
    broadcast use lemma_lacks_concat, lemma_lines_lack_concat;

    lemma_fixed_texts(c);
    lemma_truncated_lacks(dns.query@, content_width(), c);
    lemma_painted_lacks(on, truncated(dns.query@, content_width()), Color::Cyan, c);
    assert(lines_lack(
        seq!["Query: "@ + painted(on, truncated(dns.query@, content_width()), Color::Cyan)],
        c,
    ));
    lemma_joined_line_lacks("QTypes: "@, dns.qtypes@, c);
    lemma_joined_line_lacks("RRTypes: "@, dns.rrtypes@, c);
    let ips = views(dns.ips@).map_values(|ip: Seq<char>| "  - "@ + painted(on, ip, Color::Magenta));
    assert forall|i: int| 0 <= i < ips.len() implies lacks(#[trigger] ips[i], c) by {
        assert(views(dns.ips@)[i] == dns.ips@[i]@);
        lemma_painted_lacks(on, dns.ips@[i]@, Color::Magenta, c);
    }
    assert(lines_lack(seq!["Response IPs:"@], c));
    assert(lines_lack(dns_ip_lines(on, dns), c));
    let cnames = views(dns.cnames@).map_values(
        |n: Seq<char>| "  - "@ + painted(on, truncated(n, (content_width() - 4) as nat), Color::Cyan),
    );
    assert forall|i: int| 0 <= i < cnames.len() implies lacks(#[trigger] cnames[i], c) by {
        assert(views(dns.cnames@)[i] == dns.cnames@[i]@);
        lemma_truncated_lacks(dns.cnames@[i]@, (content_width() - 4) as nat, c);
        lemma_painted_lacks(
            on,
            truncated(dns.cnames@[i]@, (content_width() - 4) as nat),
            Color::Cyan,
            c,
        );
    }
    assert(lines_lack(seq!["CNames:"@], c));
    assert(lines_lack(dns_cname_lines(on, dns), c));
    lemma_decimal_lacks(dns.ttl as nat, c);
    lemma_decimal_lacks(dns.rcode as nat, c);
    lemma_truncated_lacks(dns.observation_source@, content_width(), c);
    assert(lines_lack(seq!["TTL: "@ + decimal(dns.ttl as nat) + "s"@], c));
    assert(lines_lack(seq!["RCODE: "@ + decimal(dns.rcode as nat)], c));
    assert(lines_lack(
        seq!["Observation Source: "@ + truncated(dns.observation_source@, content_width())],
        c,
    ));
    assert(lines_lack(dns_tail_lines(dns), c));
}

proof fn lemma_l7_lacks(on: bool, l7: Layer7, c: char)
    requires
        l7_lacks(Some(l7), c),
        not_brought_in(on, c),
    ensures
        lines_lack(l7_lines(on, l7), c),
{
    broadcast use lemma_lacks_concat, lemma_lines_lack_concat;

    lemma_fixed_texts(c);
    match l7.record {
        Some(Record::Http(h)) => {
            lemma_http_lacks(on, h, c);
        },
        Some(Record::Dns(d)) => {
            lemma_dns_lacks(on, d, c);
        },
        _ => {},
    }
    lemma_decimal_lacks((l7.latency_ns / 1_000_000) as nat, c);
    assert(lines_lack(
        seq!["Latency: "@ + decimal((l7.latency_ns / 1_000_000) as nat) + "ms"@],
        c,
    ));
}

/// No line inside the box of a flow holds a newline, nor, with colours off, an escape
/// character, unless a text of the flow brings it in.
pub proof fn lemma_flow_lines_lack(on: bool, flow: Flow, c: char)
    requires
        flow_lacks(flow, c),
        time_text_plain(flow),
        not_brought_in(on, c),
    ensures
        lines_lack(flow_lines(on, flow), c),
{
    broadcast use lemma_lacks_concat, lemma_lines_lack_concat;

    lemma_fixed_texts(c);
    if let Some(t) = flow.time {
        let text = timestamp_text(t.seconds, t.nanos);
        assert forall|i: int| 0 <= i < text.len() implies text[i] != c by {
            assert(date_time_char(text[i]));
        }
        assert(lines_lack(seq!["Time: "@ + text], c));
    }
    assert(lines_lack(seq!["Node: "@ + flow.node_name@], c));
    assert(lacks(direction_text(flow.traffic_direction), c));
    lemma_signed_decimal_lacks(flow.flow_type as int, c);
    assert(lacks(flow_type_text(flow.flow_type), c));
    lemma_painted_lacks(on, flow_type_text(flow.flow_type), Color::Yellow, c);
    assert(lines_lack(
        seq![
            "Direction: "@ + direction_text(flow.traffic_direction),
            "Type: "@ + painted(on, flow_type_text(flow.flow_type), Color::Yellow),
        ],
        c,
    ));
    assert(lines_lack(flow_header_lines(on, flow), c));
    assert(lines_lack(seq![Seq::<char>::empty()], c));
    if let Some(e) = flow.source {
        lemma_endpoint_lacks(on, e, flow.source_service, c);
        lemma_section_lacks("SOURCE"@, endpoint_lines(on, e, flow.source_service), c);
    }
    assert(lines_lack(endpoint_section(on, "SOURCE"@, flow.source, flow.source_service), c));
    if let Some(e) = flow.destination {
        lemma_endpoint_lacks(on, e, flow.destination_service, c);
        lemma_section_lacks("DESTINATION"@, endpoint_lines(on, e, flow.destination_service), c);
    }
    assert(lines_lack(
        endpoint_section(on, "DESTINATION"@, flow.destination, flow.destination_service),
        c,
    ));
    if let Some(ip) = flow.ip {
        lemma_painted_lacks(on, ip.source@, Color::Magenta, c);
        lemma_painted_lacks(on, ip.destination@, Color::Magenta, c);
        let lines = seq![
            "Source IP: "@ + painted(on, ip.source@, Color::Magenta),
            "Dest IP: "@ + painted(on, ip.destination@, Color::Magenta),
        ];
        assert(lines_lack(lines, c));
        lemma_section_lacks("IP"@, lines, c);
        if let Some(l4) = flow.l4 {
            lemma_l4_lacks(on, l4, c);
            lemma_section_lacks("LAYER 4"@, l4_lines(on, l4), c);
        }
    }
    assert(lines_lack(ip_section(on, flow.ip), c));
    assert(lines_lack(l4_section(on, flow.ip, flow.l4), c));
    if let Some(l7) = flow.l7 {
        lemma_l7_lacks(on, l7, c);
        assert(lacks(l7_kind(l7.record), c));
        lemma_section_lacks("LAYER 7 ("@ + l7_kind(l7.record) + ")"@, l7_lines(on, l7), c);
    }
    assert(lines_lack(l7_section(on, flow.l7), c));
    assert(lacks(verdict_style(flow.verdict).0, c));
    assert(lacks(verdict_style(flow.verdict).1, c));
    assert(lines_lack(seq![Seq::<char>::empty(), action_line(flow.verdict)], c));
}

/// The action line holds no escape and fits in a box line: it is at most twenty characters.
proof fn lemma_action_line_fits(verdict: i32)
    ensures
        no_escape(action_line(verdict)),
        lacks(action_line(verdict), '\n'),
        byte_len(action_line(verdict)) <= BOX_WIDTH,
{
    broadcast use lemma_lacks_concat;

    lemma_fixed_texts(esc());
    lemma_fixed_texts('\n');
    reveal_strlit("Action: ");
    reveal_strlit(" ");
    reveal_strlit("\u{1f6a8}");
    reveal_strlit("\u{2705}");
    reveal_strlit("\u{26a0}\u{fe0f}");
    reveal_strlit("DROPPED");
    reveal_strlit("FORWARDED");
    reveal_strlit("UNKNOWN");
    let a = action_line(verdict);
    assert(lacks(a, esc()));
    assert(a.len() <= 20);
    lemma_byte_len_le_four_times(a);
}

/// A line without escapes that fits in the box is the line followed by spaces.
pub proof fn lemma_box_line_of_fitting(l: Seq<char>)
    requires
        no_escape(l),
        byte_len(l) <= BOX_WIDTH,
    ensures
        box_line(l) == l + repeat_seq(" "@, (BOX_WIDTH - byte_len(l)) as nat),
{
    law_plain_text_width(l);
    if byte_len(l) == BOX_WIDTH {
        lemma_spaces(0);
        assert(l + repeat_seq(" "@, 0) =~= l);
    }
}

/// Split at its newlines, the rendering of a flow whose texts hold no newline is: the rule,
/// each line of the flow inside the box in order, and the rule again; it has at least six
/// lines; the one before the action line is blank; the action line is "Action: ", the
/// verdict's marker and word, filled with spaces; and one line shows the traffic direction.
pub proof fn law_flow_box_lines(on: bool, response: GetFlowsResponse, flow: Flow)
    requires
        response.response_types == Some(ResponseTypes::Flow(flow)),
        flow_lacks(flow, '\n'),
        time_text_plain(flow),
    ensures
        ({
            let lines = split_lines(rendered(on, response));
            let content = flow_lines(on, flow);
            let n = lines.len();
            let direction = "Direction: "@ + direction_text(flow.traffic_direction);
            &&& lines == seq![box_rule()] + content.map_values(|l: Seq<char>| box_line(l)) + seq![
                box_rule(),
            ]
            &&& n == content.len() + 2
            &&& n >= 6
            &&& lines[0] == box_rule()
            &&& lines[n - 1] == box_rule()
            &&& lines[n - 3] == repeat_seq(" "@, BOX_WIDTH as nat)
            &&& byte_len(action_line(flow.verdict)) <= BOX_WIDTH
            &&& lines[n - 2] == action_line(flow.verdict) + repeat_seq(
                " "@,
                (BOX_WIDTH - byte_len(action_line(flow.verdict))) as nat,
            )
            &&& exists|k: int|
                0 <= k < n && lines[k] == direction + repeat_seq(
                    " "@,
                    (BOX_WIDTH - direction.len()) as nat,
                )
        }),
{
    broadcast use lemma_lacks_concat, lemma_lines_lack_concat;

    let content = flow_lines(on, flow);
    lemma_flow_lines_lack(on, flow, '\n');
    law_box_split_lines(content);
    let lines = split_lines(rendered(on, response));
    assert(rendered(on, response) == boxed(content));
    let n = lines.len();
    let expected = seq![box_rule()] + content.map_values(|l: Seq<char>| box_line(l)) + seq![
        box_rule(),
    ];
    assert forall|i: int| 0 <= i < n implies lines[i] == expected[i] by {
        if 1 <= i < n - 1 {
            assert(lines[(i - 1) + 1] == box_line(content[i - 1]));
        }
    }
    assert(lines =~= expected);
    assert(content.len() >= 4);
    // The line before the action line is blank.
    let k_blank = content.len() - 2;
    assert(content[k_blank] == Seq::<char>::empty());
    assert(lines[k_blank + 1] == box_line(Seq::<char>::empty()));
    law_plain_text_width(Seq::<char>::empty());
    lemma_spaces(0);
    assert(Seq::<char>::empty() + repeat_seq(" "@, BOX_WIDTH as nat) =~= repeat_seq(
        " "@,
        BOX_WIDTH as nat,
    ));
    assert(byte_len(Seq::<char>::empty()) == 0);
    lemma_box_line_of_fitting(Seq::<char>::empty());
    // The action line.
    let k_action = content.len() - 1;
    assert(content[k_action] == action_line(flow.verdict));
    lemma_action_line_fits(flow.verdict);
    lemma_box_line_of_fitting(action_line(flow.verdict));
    assert(lines[k_action + 1] == box_line(content[k_action]));
    // The direction line.
    let direction = "Direction: "@ + direction_text(flow.traffic_direction);
    let h = flow_header_lines(on, flow);
    let k_dir = h.len() - 2;
    assert(h[k_dir] == direction);
    assert(content[k_dir] == direction);
    assert(lines[k_dir + 1] == box_line(direction));
    lemma_fixed_texts(esc());
    reveal_strlit("Direction: ");
    reveal_strlit("Ingress");
    reveal_strlit("Egress");
    reveal_strlit("Unknown");
    assert(no_escape(direction));
    assert(direction.len() <= 18);
    vstd::utf8::is_ascii_chars_encode_utf8(direction);
    lemma_box_line_of_fitting(direction);
    assert(lines[k_dir + 1] == direction + repeat_seq(" "@, (BOX_WIDTH - direction.len()) as nat));
}

/// With colours off, the rendering of a stream message holds no escape character unless a
/// text of its flow does.
pub proof fn law_plain_rendering_has_no_escape(response: GetFlowsResponse, flow: Flow)
    requires
        response.response_types == Some(ResponseTypes::Flow(flow)),
        flow_lacks(flow, esc()),
        time_text_plain(flow),
    ensures
        lacks(rendered(false, response), esc()),
{
    broadcast use lemma_lacks_concat, lemma_lines_lack_concat;

    let content = flow_lines(false, flow);
    lemma_flow_lines_lack(false, flow, esc());
    let inner = content.map_values(|l: Seq<char>| box_line(l));
    assert forall|i: int| 0 <= i < inner.len() implies lacks(#[trigger] inner[i], esc()) by {
        lemma_box_line_lacks(content[i], esc());
    }
    lemma_box_rule_lacks(esc());
    let all = seq![box_rule()] + inner + seq![box_rule()];
    assert(lines_lack(seq![box_rule()], esc()));
    assert(lines_lack(all, esc()));
    reveal_strlit("\n");
    lemma_joined_lacks(all, "\n"@, esc());
}

} // verus!
