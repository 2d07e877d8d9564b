use vstd::prelude::*;
use crate::clock::{
    date_time_char, epoch_text, format_utc_timestamp, text_or_fallback, utc_timestamp_text,
};
use crate::flow::{
    Dns, Endpoint, Flow, GetFlowsResponse, Http, HttpHeader, Ip, Layer4, Layer7, Protocol, Record,
    ResponseTypes, Service, TcpFlags, Timestamp, Verdict,
};
use crate::flow_laws::{flow_lacks, law_plain_rendering_has_no_escape};
use crate::text::{
    decimal, format_u64, lacks,
    byte_len, chars_of, format_i64, join_strings, joined, push_char, repeat_seq, repeat_str,
    signed_decimal, views,
};

verus! {

/// Width, in bytes, of the frame that `draw_box` draws.
pub const BOX_WIDTH: usize = 80;

/// The terminal colours that the formatter paints text with.
#[derive(Clone, Copy, Debug, PartialEq, Eq)]
pub enum Color {
    Black,
    Blue,
    Green,
    Red,
    Cyan,
    Magenta,
    Yellow,
    White,
    Ansi256(u8),
    Rgb(u8, u8, u8),
}

/// The escape character that opens an ANSI control sequence.
pub open spec fn esc() -> char {
    '\x1b'
}

/// True when an ANSI control sequence ("ESC [") starts at position `i` of `s`.
pub open spec fn is_csi_start(s: Seq<char>, i: int) -> bool {
    0 <= i && i + 1 < s.len() && s[i] == esc() && s[i + 1] == '['
}

/// The text with ANSI sequences removed: everything from the first "ESC [" on is dropped.
pub open spec fn strip_ansi(s: Seq<char>) -> Seq<char>
    decreases s.len(),
{
    if s.len() == 0 {
        s
    } else if is_csi_start(s, 0) {
        Seq::empty()
    } else {
        seq![s[0]] + strip_ansi(s.drop_first())
    }
}

/// The width a text takes once its ANSI sequences are removed, counted in UTF-8 bytes.
pub open spec fn visible_len(s: Seq<char>) -> nat {
    byte_len(strip_ansi(s))
}

pub open spec fn is_ascii_alpha(c: char) -> bool {
    ('a' <= c && c <= 'z') || ('A' <= c && c <= 'Z')
}

pub open spec fn ellipsis() -> Seq<char> {
    seq!['.', '.', '.']
}

/// Copies `s` until `budget` visible characters have been copied, then appends "...".
/// An "ESC [" sequence is copied without its '[' and up to its first ASCII letter, and
/// costs nothing; `in_escape` is true inside such a sequence.
pub open spec fn truncate_scan(s: Seq<char>, budget: nat, in_escape: bool) -> Seq<char>
    decreases s.len(),
{
    if s.len() == 0 {
        ellipsis()
    } else if in_escape {
        seq![s[0]] + truncate_scan(s.drop_first(), budget, !is_ascii_alpha(s[0]))
    } else if is_csi_start(s, 0) {
        seq![esc()] + truncate_scan(s.skip(2), budget, true)
    } else if budget == 0 {
        ellipsis()
    } else {
        seq![s[0]] + truncate_scan(s.drop_first(), (budget - 1) as nat, false)
    }
}

/// A text cut so that it shows at most `max_width` bytes: unchanged when it already fits,
/// else its first `max_width - 3` visible characters followed by "...".
pub open spec fn truncated(s: Seq<char>, max_width: nat) -> Seq<char> {
    if visible_len(s) <= max_width {
        s
    } else {
        truncate_scan(s, if max_width >= 3 { (max_width - 3) as nat } else { 0 }, false)
    }
}

/// A text filled with spaces on the right until it shows `width` bytes.
pub open spec fn padded(s: Seq<char>, width: nat) -> Seq<char> {
    if visible_len(s) >= width {
        s
    } else {
        s + repeat_seq(" "@, (width - visible_len(s)) as nat)
    }
}

/// The SGR parameter of a foreground colour.
pub open spec fn fg_code(c: Color) -> Seq<char> {
    match c {
        Color::Black => "30"@,
        Color::Red => "31"@,
        Color::Green => "32"@,
        Color::Yellow => "33"@,
        Color::Blue => "34"@,
        Color::Magenta => "35"@,
        Color::Cyan => "36"@,
        Color::White => "37"@,
        _ => "39"@,
    }
}

/// The SGR parameter of a background colour.
pub open spec fn bg_code(c: Color) -> Seq<char> {
    match c {
        Color::Black => "40"@,
        Color::Red => "41"@,
        Color::Green => "42"@,
        Color::Yellow => "43"@,
        Color::Blue => "44"@,
        Color::Magenta => "45"@,
        Color::Cyan => "46"@,
        Color::White => "47"@,
        _ => "49"@,
    }
}

/// A text painted with a foreground colour, or left plain when colours are off.
pub open spec fn painted(on: bool, s: Seq<char>, c: Color) -> Seq<char> {
    if on {
        "\x1b["@ + fg_code(c) + "m"@ + s + "\x1b[0m"@
    } else {
        s
    }
}

/// A text painted with a background and a foreground colour, or left plain when colours are off.
pub open spec fn painted_bg(on: bool, s: Seq<char>, bg: Color, fg: Color) -> Seq<char> {
    if on {
        "\x1b["@ + bg_code(bg) + ";"@ + fg_code(fg) + "m"@ + s + "\x1b[0m"@
    } else {
        s
    }
}

/// The horizontal rule that opens and closes a box.
pub open spec fn box_rule() -> Seq<char> {
    repeat_seq("\u{2550}"@, BOX_WIDTH as nat)
}

/// A line as it stands inside a box: cut to the box width, then filled up to it.
pub open spec fn box_line(l: Seq<char>) -> Seq<char> {
    padded(truncated(l, BOX_WIDTH as nat), BOX_WIDTH as nat)
}

/// The lines framed by two rules, each line cut and filled to the box width, joined by newlines.
pub open spec fn boxed(content: Seq<Seq<char>>) -> Seq<char> {
    joined(seq![box_rule()] + content.map_values(|l: Seq<char>| box_line(l)) + seq![box_rule()], "\n"@)
}

/// The header of a section: the title between two light rules.
pub open spec fn section_header(title: Seq<char>) -> Seq<char> {
    "\u{2500} "@ + title + " \u{2500}"@
}

/// A section: its header, then each line cut to two less than the box width.
pub open spec fn section(title: Seq<char>, content: Seq<Seq<char>>) -> Seq<Seq<char>> {
    seq![section_header(title)] + content.map_values(
        |l: Seq<char>| truncated(l, (BOX_WIDTH - 2) as nat),
    )
}

/// The text of a known drop reason code, or "Drop reason: <code>".
pub open spec fn drop_reason_text(reason: i32) -> Seq<char> {
    if reason == 0 {
        "Unknown"@
    } else if reason == 130 {
        "Invalid source MAC"@
    } else if reason == 131 {
        "Invalid destination MAC"@
    } else if reason == 132 {
        "Invalid source IP"@
    } else if reason == 133 {
        "Policy denied"@
    } else if reason == 134 {
        "Invalid packet dropped"@
    } else if reason == 135 {
        "CT truncated or invalid header"@
    } else if reason == 136 {
        "CT missing TCP ACK flag"@
    } else if reason == 137 {
        "CT unknown L4 protocol"@
    } else if reason == 138 {
        "CT cannot create entry"@
    } else if reason == 139 {
        "Unsupported L3 protocol"@
    } else if reason == 140 {
        "Missed tail call"@
    } else if reason == 141 {
        "Error writing to packet"@
    } else if reason == 142 {
        "Unknown L4 protocol"@
    } else if reason == 143 {
        "Unknown ICMPv4 code"@
    } else if reason == 144 {
        "Unknown ICMPv4 type"@
    } else if reason == 145 {
        "Unknown ICMPv6 code"@
    } else if reason == 146 {
        "Unknown ICMPv6 type"@
    } else if reason == 181 {
        "Policy deny"@
    } else {
        "Drop reason: "@ + signed_decimal(reason as int)
    }
}

/// The name of a flow type code, or "UNKNOWN(<code>)".
pub open spec fn flow_type_text(flow_type: i32) -> Seq<char> {
    if flow_type == 0 {
        "UNKNOWN"@
    } else if flow_type == 1 {
        "L3_L4"@
    } else if flow_type == 2 {
        "L7"@
    } else if flow_type == 3 {
        "SOCK"@
    } else {
        "UNKNOWN("@ + signed_decimal(flow_type as int) + ")"@
    }
}

/// The marker, word and colours (background, then foreground) that show a verdict code.
pub open spec fn verdict_style(verdict: i32) -> (Seq<char>, Seq<char>, Color, Color) {
    if verdict == 2 {
        ("\u{1f6a8}"@, "DROPPED"@, Color::Red, Color::White)
    } else if verdict == 1 {
        ("\u{2705}"@, "FORWARDED"@, Color::Green, Color::Black)
    } else {
        ("\u{26a0}\u{fe0f}"@, "UNKNOWN"@, Color::Yellow, Color::Black)
    }
}

/// The verdict headline: marker, word, and the drop reason when there is one.
pub open spec fn verdict_headline(verdict: i32, drop_reason: i32) -> Seq<char> {
    let (emoji, word, _bg, _fg) = verdict_style(verdict);
    emoji + " "@ + word + if drop_reason != 0 {
        " - "@ + drop_reason_text(drop_reason)
    } else {
        Seq::empty()
    }
}

/// The date and time of a timestamp; chrono's default date and time, the epoch, where
/// chrono refuses the timestamp.
pub open spec fn timestamp_text(seconds: i64, nanos: i32) -> Seq<char> {
    match utc_timestamp_text(seconds, nanos as u32) {
        Some(t) => t,
        None => epoch_text(),
    }
}

/// True when the date and time text of a flow, if it has a time, is made only of digits,
/// signs and separators.
pub open spec fn time_text_plain(flow: Flow) -> bool {
    match flow.time {
        Some(t) => forall|i: int|
            0 <= i < timestamp_text(t.seconds, t.nanos).len() ==> date_time_char(
                #[trigger] timestamp_text(t.seconds, t.nanos)[i],
            ),
        None => true,
    }
}

/// Text that is cut to fit a line of a section's content.
pub open spec fn content_width() -> nat {
    (BOX_WIDTH - 10) as nat
}

/// How an endpoint names its pod: "namespace/pod", the bare pod, or "Unknown".
pub open spec fn pod_display(ep: Endpoint) -> Seq<char> {
    if ep.pod_name@.len() == 0 {
        "Unknown"@
    } else if ep.namespace@.len() != 0 {
        ep.namespace@ + "/"@ + ep.pod_name@
    } else {
        ep.pod_name@
    }
}

/// The lines that describe an endpoint and, when it has a name, its service.
pub open spec fn endpoint_lines(on: bool, ep: Endpoint, service: Option<Service>) -> Seq<Seq<char>> {
    let pod = seq!["Pod: "@ + painted(on, truncated(pod_display(ep), content_width()), Color::Cyan)];
    match service {
        Some(svc) => if svc.name@.len() != 0 {
            pod + seq!["Service: "@ + truncated(svc.name@, content_width())]
        } else {
            pod
        },
        None => pod,
    }
}

/// The names of the set TCP flags, in the order SYN, ACK, FIN, RST, PSH.
pub open spec fn flag_names(flags: Option<TcpFlags>) -> Seq<Seq<char>> {
    match flags {
        Some(f) => (if f.syn { seq!["SYN"@] } else { Seq::empty() }) + (if f.ack {
            seq!["ACK"@]
        } else {
            Seq::empty()
        }) + (if f.fin { seq!["FIN"@] } else { Seq::empty() }) + (if f.rst {
            seq!["RST"@]
        } else {
            Seq::empty()
        }) + (if f.psh { seq!["PSH"@] } else { Seq::empty() }),
        None => Seq::empty(),
    }
}

/// The protocol line and ports line of a transport protocol.
pub open spec fn port_lines(on: bool, name: Seq<char>, source_port: u32, destination_port: u32) -> Seq<
    Seq<char>,
> {
    seq![
        "Protocol: "@ + painted(on, name, Color::Blue),
        "Ports: "@ + painted(on, decimal(source_port as nat), Color::Yellow) + " \u{2192} "@
            + painted(on, decimal(destination_port as nat), Color::Yellow),
    ]
}

/// The lines that describe the transport layer: protocol, ports, and TCP flags.
pub open spec fn l4_lines(on: bool, l4: Layer4) -> Seq<Seq<char>> {
    match l4.protocol {
        Some(Protocol::Tcp(tcp)) => port_lines(on, "TCP"@, tcp.source_port, tcp.destination_port)
            + if flag_names(tcp.flags).len() != 0 {
            seq!["Flags: "@ + joined(flag_names(tcp.flags), ", "@)]
        } else {
            Seq::empty()
        },
        Some(Protocol::Udp(udp)) => port_lines(on, "UDP"@, udp.source_port, udp.destination_port),
        _ => Seq::empty(),
    }
}

/// The status shown for an HTTP response code.
pub open spec fn http_status_text(code: u32) -> Seq<char> {
    if code == 200 {
        "200 OK"@
    } else if code == 404 {
        "404 Not Found"@
    } else if code == 500 {
        "500 Internal Server Error"@
    } else {
        decimal(code as nat)
    }
}

/// One HTTP header, key and value each cut to half the content width.
pub open spec fn header_line(h: HttpHeader) -> Seq<char> {
    "  "@ + truncated(h.key@, content_width() / 2) + ": "@ + truncated(h.value@, content_width() / 2)
}

/// The lines of the headers whose key and value are both non-empty, in order.
pub open spec fn header_lines(hs: Seq<HttpHeader>) -> Seq<Seq<char>>
    decreases hs.len(),
{
    if hs.len() == 0 {
        Seq::empty()
    } else {
        header_lines(hs.drop_last()) + if hs.last().key@.len() != 0 && hs.last().value@.len() != 0 {
            seq![header_line(hs.last())]
        } else {
            Seq::empty()
        }
    }
}

/// The lines that describe an HTTP exchange: request, status, then headers.
pub open spec fn http_lines(on: bool, http: Http) -> Seq<Seq<char>> {
    seq![
        painted(on, http.method@, Color::Yellow) + " "@ + truncated(http.url@, content_width())
            + " \u{2192} "@ + http_status_text(http.code),
    ] + if http.headers@.len() != 0 {
        seq!["Headers:"@] + header_lines(http.headers@)
    } else {
        Seq::empty()
    }
}

/// A labelled list of names joined by commas and cut to the content width, or nothing when empty.
pub open spec fn joined_line(label: Seq<char>, items: Seq<String>) -> Seq<Seq<char>> {
    if items.len() != 0 {
        seq![label + truncated(joined(views(items), ", "@), content_width())]
    } else {
        Seq::empty()
    }
}

/// The resolved addresses of a DNS exchange, one per line under a heading.
pub open spec fn dns_ip_lines(on: bool, dns: Dns) -> Seq<Seq<char>> {
    if dns.ips@.len() != 0 {
        seq!["Response IPs:"@] + views(dns.ips@).map_values(
            |ip: Seq<char>| "  - "@ + painted(on, ip, Color::Magenta),
        )
    } else {
        Seq::empty()
    }
}

/// The canonical names of a DNS exchange, one per line under a heading.
pub open spec fn dns_cname_lines(on: bool, dns: Dns) -> Seq<Seq<char>> {
    if dns.cnames@.len() != 0 {
        seq!["CNames:"@] + views(dns.cnames@).map_values(
            |c: Seq<char>|
                "  - "@ + painted(on, truncated(c, (content_width() - 4) as nat), Color::Cyan),
        )
    } else {
        Seq::empty()
    }
}

/// The lines of a DNS exchange after its names: TTL, response code and observation source.
pub open spec fn dns_tail_lines(dns: Dns) -> Seq<Seq<char>> {
    (if dns.ttl > 0 {
        seq!["TTL: "@ + decimal(dns.ttl as nat) + "s"@]
    } else {
        Seq::empty()
    }) + (if dns.rcode > 0 {
        seq!["RCODE: "@ + decimal(dns.rcode as nat)]
    } else {
        Seq::empty()
    }) + if dns.observation_source@.len() != 0 {
        seq!["Observation Source: "@ + truncated(dns.observation_source@, content_width())]
    } else {
        Seq::empty()
    }
}

/// The lines that describe a DNS exchange.
pub open spec fn dns_lines(on: bool, dns: Dns) -> Seq<Seq<char>> {
    seq!["Query: "@ + painted(on, truncated(dns.query@, content_width()), Color::Cyan)]
        + joined_line("QTypes: "@, dns.qtypes@) + dns_ip_lines(on, dns) + joined_line(
        "RRTypes: "@,
        dns.rrtypes@,
    ) + dns_cname_lines(on, dns) + dns_tail_lines(dns)
}

/// The lines that describe the application layer: its record, then its latency in milliseconds.
pub open spec fn l7_lines(on: bool, l7: Layer7) -> Seq<Seq<char>> {
    (match l7.record {
        Some(Record::Http(http)) => http_lines(on, http),
        Some(Record::Dns(dns)) => dns_lines(on, dns),
        _ => Seq::empty(),
    }) + if l7.latency_ns > 0 {
        seq!["Latency: "@ + decimal((l7.latency_ns / 1_000_000) as nat) + "ms"@]
    } else {
        Seq::empty()
    }
}

/// The name of a traffic direction code.
pub open spec fn direction_text(direction: i32) -> Seq<char> {
    if direction == 1 {
        "Ingress"@
    } else if direction == 2 {
        "Egress"@
    } else {
        "Unknown"@
    }
}

/// The lines that open a flow's box: time, node, direction and flow type.
pub open spec fn flow_header_lines(on: bool, flow: Flow) -> Seq<Seq<char>> {
    (match flow.time {
        Some(t) => seq!["Time: "@ + timestamp_text(t.seconds, t.nanos)],
        None => Seq::empty(),
    }) + (if flow.node_name@.len() != 0 {
        seq!["Node: "@ + flow.node_name@]
    } else {
        Seq::empty()
    }) + seq![
        "Direction: "@ + direction_text(flow.traffic_direction),
        "Type: "@ + painted(on, flow_type_text(flow.flow_type), Color::Yellow),
    ]
}

/// A blank line, then the section of an endpoint, when the flow has that endpoint.
pub open spec fn endpoint_section(
    on: bool,
    title: Seq<char>,
    ep: Option<Endpoint>,
    service: Option<Service>,
) -> Seq<Seq<char>> {
    match ep {
        Some(e) => seq![Seq::empty()] + section(title, endpoint_lines(on, e, service)),
        None => Seq::empty(),
    }
}

/// A blank line, then the section of the addresses, when the flow has them.
pub open spec fn ip_section(on: bool, ip: Option<Ip>) -> Seq<Seq<char>> {
    match ip {
        Some(ip) => seq![Seq::empty()] + section(
            "IP"@,
            seq![
                "Source IP: "@ + painted(on, ip.source@, Color::Magenta),
                "Dest IP: "@ + painted(on, ip.destination@, Color::Magenta),
            ],
        ),
        None => Seq::empty(),
    }
}

/// A blank line, then the transport section, when the flow has both addresses and a transport layer.
pub open spec fn l4_section(on: bool, ip: Option<Ip>, l4: Option<Layer4>) -> Seq<Seq<char>> {
    match (ip, l4) {
        (Some(_), Some(l4)) => seq![Seq::empty()] + section("LAYER 4"@, l4_lines(on, l4)),
        _ => Seq::empty(),
    }
}

/// The kind of an application-layer record, as the section title names it.
pub open spec fn l7_kind(record: Option<Record>) -> Seq<char> {
    match record {
        Some(Record::Http(_)) => "HTTP"@,
        Some(Record::Dns(_)) => "DNS"@,
        _ => "L7"@,
    }
}

/// A blank line when the flow has an application layer, then its section when that has lines.
pub open spec fn l7_section(on: bool, l7: Option<Layer7>) -> Seq<Seq<char>> {
    match l7 {
        Some(l7) => seq![Seq::empty()] + if l7_lines(on, l7).len() != 0 {
            section("LAYER 7 ("@ + l7_kind(l7.record) + ")"@, l7_lines(on, l7))
        } else {
            Seq::empty()
        },
        None => Seq::empty(),
    }
}

/// The last line of a flow's box: the action taken, by marker and word.
pub open spec fn action_line(verdict: i32) -> Seq<char> {
    "Action: "@ + verdict_style(verdict).0 + " "@ + verdict_style(verdict).1
}

/// Every line inside the box of a flow, in order.
pub open spec fn flow_lines(on: bool, flow: Flow) -> Seq<Seq<char>> {
    flow_header_lines(on, flow) + endpoint_section(on, "SOURCE"@, flow.source, flow.source_service)
        + endpoint_section(on, "DESTINATION"@, flow.destination, flow.destination_service)
        + ip_section(on, flow.ip) + l4_section(on, flow.ip, flow.l4) + l7_section(on, flow.l7)
        + seq![Seq::empty(), action_line(flow.verdict)]
}

/// The rendering of a stream message: the box of its flow, or nothing when it holds no flow.
pub open spec fn rendered(on: bool, response: GetFlowsResponse) -> Seq<char> {
    match response.response_types {
        Some(ResponseTypes::Flow(flow)) => boxed(flow_lines(on, flow)),
        _ => Seq::empty(),
    }
}

/// Renders Hubble flows as framed, optionally coloured, text.
pub struct FlowFormatter {
    colored: bool,
}

impl FlowFormatter {
    /// Whether this formatter paints its output with ANSI colours.
    pub closed spec fn colors_on(&self) -> bool {
        self.colored
    }

    pub fn new(colored: bool) -> (r: Self)
        ensures
            r.colors_on() == colored,
    {
        Self { colored }
    }

    pub fn strip_ansi_codes(text: &str) -> (r: String)
        ensures
            r@ == strip_ansi(text@),
    {
        let chars = chars_of(text);
        let n = chars.len();
        let mut result = String::new();
        let mut i: usize = 0;
        assert(chars@.skip(0) =~= chars@);
        assert(result@ + strip_ansi(chars@) =~= strip_ansi(chars@));
        while i < n
            invariant
                i <= n == chars@.len(),
                chars@ == text@,
                result@ + strip_ansi(chars@.skip(i as int)) == strip_ansi(text@),
            decreases n - i,
        {
            let ghost rest = chars@.skip(i as int);
            let c = chars[i];
            if c == '\x1b' && i + 1 < n && chars[i + 1] == '[' {
                // Once a sequence opens, the rest of the text is dropped.
                assert(is_csi_start(rest, 0));
                assert(strip_ansi(rest) =~= Seq::empty());
                assert(chars@.skip(n as int) =~= Seq::empty());
                assert(result@ + strip_ansi(chars@.skip(n as int)) =~= result@);
                i = n;
            } else {
                assert(rest.drop_first() =~= chars@.skip(i + 1));
                push_char(&mut result, c);
                i = i + 1;
            }
        }
        assert(chars@.skip(i as int) =~= Seq::empty());
        assert(result@ + strip_ansi(chars@.skip(i as int)) =~= result@);
        result
    }

    pub fn visible_width(text: &str) -> (r: usize)
        ensures
            r == visible_len(text@),
    {
        let stripped = Self::strip_ansi_codes(text);
        stripped.as_str().as_bytes().len()
    }

    pub fn box_char_h() -> (r: &'static str)
        ensures
            r@ == "\u{2550}"@,
    {
        "\u{2550}"
    }

    pub fn pad_line(&self, text: &str, width: usize) -> (r: String)
        ensures
            r@ == padded(text@, width as nat),
    {
        let visible = Self::visible_width(text);
        if visible >= width {
            text.to_owned()
        } else {
            let mut r = text.to_owned();
            let fill = repeat_str(" ", width - visible);
            r.append(fill.as_str());
            r
        }
    }

    pub fn draw_box(&self, content: Vec<String>) -> (r: String)
        ensures
            r@ == boxed(views(content@)),
    {
        let mut lines: Vec<String> = Vec::new();
        lines.push(repeat_str(Self::box_char_h(), BOX_WIDTH));
        let n = content.len();
        let mut i: usize = 0;
        while i < n
            invariant
                i <= n == content@.len(),
                lines@.len() == i + 1,
                lines@[0]@ == box_rule(),
                forall|j: int| 0 <= j < i ==> #[trigger] lines@[j + 1]@ == box_line(content@[j]@),
            decreases n - i,
        {
            let truncated_line = Self::truncate_text(content[i].as_str(), BOX_WIDTH);
            let padded_line = self.pad_line(truncated_line.as_str(), BOX_WIDTH);
            lines.push(padded_line);
            i = i + 1;
        }
        lines.push(repeat_str(Self::box_char_h(), BOX_WIDTH));
        let ghost expected = seq![box_rule()] + views(content@).map_values(
            |l: Seq<char>| box_line(l),
        ) + seq![box_rule()];
        assert(views(lines@) =~= expected) by {
            assert forall|j: int| 0 <= j < lines@.len() implies views(lines@)[j] == expected[j] by {
                if 1 <= j < n + 1 {
                    assert(lines@[(j - 1) + 1]@ == box_line(content@[j - 1]@));
                }
            }
        }
        join_strings(&lines, "\n")
    }

    pub fn draw_section(&self, title: &str, content: Vec<String>) -> (r: Vec<String>)
        ensures
            views(r@) == section(title@, views(content@)),
    {
        let mut lines: Vec<String> = Vec::new();
        let mut header = String::new();
        header.append("\u{2500} ");
        header.append(title);
        header.append(" \u{2500}");
        lines.push(header);
        let n = content.len();
        let mut i: usize = 0;
        while i < n
            invariant
                i <= n == content@.len(),
                lines@.len() == i + 1,
                lines@[0]@ == section_header(title@),
                forall|j: int|
                    0 <= j < i ==> #[trigger] lines@[j + 1]@ == truncated(
                        content@[j]@,
                        (BOX_WIDTH - 2) as nat,
                    ),
            decreases n - i,
        {
            let truncated_line = Self::truncate_text(content[i].as_str(), BOX_WIDTH - 2);
            lines.push(truncated_line);
            i = i + 1;
        }
        let ghost expected = section(title@, views(content@));
        assert(views(lines@) =~= expected) by {
            assert forall|j: int| 0 <= j < lines@.len() implies views(lines@)[j] == expected[j] by {
                if 1 <= j {
                    assert(lines@[(j - 1) + 1]@ == truncated(content@[j - 1]@, (BOX_WIDTH - 2) as nat));
                }
            }
        }
        lines
    }

    fn fg_code_of(color: Color) -> (r: &'static str)
        ensures
            r@ == fg_code(color),
    {
        match color {
            Color::Black => "30",
            Color::Red => "31",
            Color::Green => "32",
            Color::Yellow => "33",
            Color::Blue => "34",
            Color::Magenta => "35",
            Color::Cyan => "36",
            Color::White => "37",
            _ => "39",
        }
    }

    fn bg_code_of(color: Color) -> (r: &'static str)
        ensures
            r@ == bg_code(color),
    {
        match color {
            Color::Black => "40",
            Color::Red => "41",
            Color::Green => "42",
            Color::Yellow => "43",
            Color::Blue => "44",
            Color::Magenta => "45",
            Color::Cyan => "46",
            Color::White => "47",
            _ => "49",
        }
    }

    pub fn color_text(&self, text: &str, color: Color) -> (r: String)
        ensures
            r@ == painted(self.colors_on(), text@, color),
    {
        if !self.colored {
            return text.to_owned();
        }
        let ansi_code = Self::fg_code_of(color);
        let mut r = String::new();
        r.append("\x1b[");
        r.append(ansi_code);
        r.append("m");
        r.append(text);
        r.append("\x1b[0m");
        r
    }

    pub fn color_bg_text(&self, text: &str, bg: Color, fg: Color) -> (r: String)
        ensures
            r@ == painted_bg(self.colors_on(), text@, bg, fg),
    {
        if !self.colored {
            return text.to_owned();
        }
        let bg_code = Self::bg_code_of(bg);
        let fg_code = Self::fg_code_of(fg);
        let mut r = String::new();
        r.append("\x1b[");
        r.append(bg_code);
        r.append(";");
        r.append(fg_code);
        r.append("m");
        r.append(text);
        r.append("\x1b[0m");
        r
    }

    pub fn drop_reason_to_string(reason: i32) -> (r: String)
        ensures
            r@ == drop_reason_text(reason),
    {
        let text = match reason {
            0 => "Unknown",
            130 => "Invalid source MAC",
            131 => "Invalid destination MAC",
            132 => "Invalid source IP",
            133 => "Policy denied",
            134 => "Invalid packet dropped",
            135 => "CT truncated or invalid header",
            136 => "CT missing TCP ACK flag",
            137 => "CT unknown L4 protocol",
            138 => "CT cannot create entry",
            139 => "Unsupported L3 protocol",
            140 => "Missed tail call",
            141 => "Error writing to packet",
            142 => "Unknown L4 protocol",
            143 => "Unknown ICMPv4 code",
            144 => "Unknown ICMPv4 type",
            145 => "Unknown ICMPv6 code",
            146 => "Unknown ICMPv6 type",
            181 => "Policy deny",
            _ => {
                let mut r = String::new();
                r.append("Drop reason: ");
                let code = format_i64(reason as i64);
                r.append(code.as_str());
                return r;
            },
        };
        text.to_owned()
    }

    pub fn format_flow_type(flow_type: i32) -> (r: String)
        ensures
            r@ == flow_type_text(flow_type),
    {
        match flow_type {
            0 => "UNKNOWN".to_owned(),
            1 => "L3_L4".to_owned(),
            2 => "L7".to_owned(),
            3 => "SOCK".to_owned(),
            _ => {
                let mut r = String::new();
                r.append("UNKNOWN(");
                let code = format_i64(flow_type as i64);
                r.append(code.as_str());
                r.append(")");
                r
            },
        }
    }

    pub fn format_verdict(&self, verdict: i32, drop_reason: i32) -> (r: String)
        ensures
            r@ == painted_bg(
                self.colors_on(),
                verdict_headline(verdict, drop_reason),
                verdict_style(verdict).2,
                verdict_style(verdict).3,
            ),
    {
        let (emoji, text, bg, fg) = if verdict == Verdict::Dropped.code() {
            ("\u{1f6a8}", "DROPPED", Color::Red, Color::White)
        } else if verdict == Verdict::Forwarded.code() {
            ("\u{2705}", "FORWARDED", Color::Green, Color::Black)
        } else {
            ("\u{26a0}\u{fe0f}", "UNKNOWN", Color::Yellow, Color::Black)
        };
        let mut header_text = String::new();
        header_text.append(emoji);
        header_text.append(" ");
        header_text.append(text);
        if drop_reason != 0 {
            header_text.append(" - ");
            let reason = Self::drop_reason_to_string(drop_reason);
            header_text.append(reason.as_str());
        }
        proof {
            assert(header_text@ =~= verdict_headline(verdict, drop_reason));
        }
        self.color_bg_text(header_text.as_str(), bg, fg)
    }

    pub fn format_timestamp(&self, time: &Timestamp) -> (r: String)
        ensures
            r@ == timestamp_text(time.seconds, time.nanos),
            forall|i: int| 0 <= i < r@.len() ==> date_time_char(#[trigger] r@[i]),
    {
        let formatted = format_utc_timestamp(time.seconds, time.nanos as u32);
        // chrono's default date and time is the epoch.
        let fallback = match format_utc_timestamp(0, 0) {
            Some(text) => text,
            None => String::new(),
        };
        text_or_fallback(formatted, fallback)
    }

    pub fn format_endpoint(&self, ep: &Endpoint, service: Option<&Service>) -> (r: Vec<String>)
        ensures
            views(r@) == endpoint_lines(
                self.colors_on(),
                *ep,
                match service {
                    Some(s) => Some(*s),
                    None => None,
                },
            ),
    {
        let mut lines: Vec<String> = Vec::new();
        let max_content_width = BOX_WIDTH - 10;
        let pod_display = if ep.pod_name.as_str().is_empty() {
            "Unknown".to_owned()
        } else {
            if !ep.namespace.as_str().is_empty() {
                let mut d = ep.namespace.clone();
                d.append("/");
                d.append(ep.pod_name.as_str());
                d
            } else {
                ep.pod_name.clone()
            }
        };
        let truncated_pod = Self::truncate_text(pod_display.as_str(), max_content_width);
        let colored_pod = self.color_text(truncated_pod.as_str(), Color::Cyan);
        let mut pod_line = "Pod: ".to_owned();
        pod_line.append(colored_pod.as_str());
        lines.push(pod_line);
        if let Some(svc) = service {
            if !svc.name.as_str().is_empty() {
                let svc_name = Self::truncate_text(svc.name.as_str(), max_content_width);
                let mut svc_line = "Service: ".to_owned();
                svc_line.append(svc_name.as_str());
                lines.push(svc_line);
            }
        }
        proof {
            let expected = endpoint_lines(
                self.colors_on(),
                *ep,
                match service {
                    Some(s) => Some(*s),
                    None => None,
                },
            );
            assert(views(lines@) =~= expected);
        }
        lines
    }

    fn push_port_lines(
        &self,
        lines: &mut Vec<String>,
        name: &str,
        source_port: u32,
        destination_port: u32,
    )
        ensures
            views(final(lines)@) == views(old(lines)@) + port_lines(
                self.colors_on(),
                name@,
                source_port,
                destination_port,
            ),
    {
        let ghost start = views(lines@);
        let mut protocol_line = "Protocol: ".to_owned();
        let colored_name = self.color_text(name, Color::Blue);
        protocol_line.append(colored_name.as_str());
        lines.push(protocol_line);
        let source = format_u64(source_port as u64);
        let destination = format_u64(destination_port as u64);
        let colored_source = self.color_text(source.as_str(), Color::Yellow);
        let colored_destination = self.color_text(destination.as_str(), Color::Yellow);
        let mut ports_line = "Ports: ".to_owned();
        ports_line.append(colored_source.as_str());
        ports_line.append(" \u{2192} ");
        ports_line.append(colored_destination.as_str());
        lines.push(ports_line);
        proof {
            assert(views(lines@) =~= start + port_lines(
                self.colors_on(),
                name@,
                source_port,
                destination_port,
            ));
        }
    }

    pub fn format_l4(&self, l4: &Layer4, _ip: &Ip) -> (r: Vec<String>)
        ensures
            views(r@) == l4_lines(self.colors_on(), *l4),
    {
        let mut lines: Vec<String> = Vec::new();
        if let Some(protocol) = &l4.protocol {
            match protocol {
                Protocol::Tcp(tcp) => {
                    self.push_port_lines(&mut lines, "TCP", tcp.source_port, tcp.destination_port);
                    let mut flags: Vec<String> = Vec::new();
                    if let Some(flags_info) = &tcp.flags {
                        if flags_info.syn {
                            flags.push("SYN".to_owned());
                        }
                        if flags_info.ack {
                            flags.push("ACK".to_owned());
                        }
                        if flags_info.fin {
                            flags.push("FIN".to_owned());
                        }
                        if flags_info.rst {
                            flags.push("RST".to_owned());
                        }
                        if flags_info.psh {
                            flags.push("PSH".to_owned());
                        }
                    }
                    assert(views(flags@) =~= flag_names(tcp.flags));
                    if flags.len() != 0 {
                        let names = join_strings(&flags, ", ");
                        let mut flags_line = "Flags: ".to_owned();
                        flags_line.append(names.as_str());
                        lines.push(flags_line);
                    }
                    assert(views(lines@) =~= l4_lines(self.colors_on(), *l4));
                },
                Protocol::Udp(udp) => {
                    self.push_port_lines(&mut lines, "UDP", udp.source_port, udp.destination_port);
                    assert(views(lines@) =~= l4_lines(self.colors_on(), *l4));
                },
                _ => {},
            }
        }
        lines
    }

    pub fn format_http(&self, http: &Http) -> (r: Vec<String>)
        ensures
            views(r@) == http_lines(self.colors_on(), *http),
    {
        let mut lines: Vec<String> = Vec::new();
        let max_content_width = BOX_WIDTH - 10;
        let status = if http.code == 200 {
            "200 OK".to_owned()
        } else if http.code == 404 {
            "404 Not Found".to_owned()
        } else if http.code == 500 {
            "500 Internal Server Error".to_owned()
        } else {
            format_u64(http.code as u64)
        };
        let truncated_url = Self::truncate_text(http.url.as_str(), max_content_width);
        let mut request_line = self.color_text(http.method.as_str(), Color::Yellow);
        request_line.append(" ");
        request_line.append(truncated_url.as_str());
        request_line.append(" \u{2192} ");
        request_line.append(status.as_str());
        lines.push(request_line);
        if http.headers.len() != 0 {
            lines.push("Headers:".to_owned());
            let ghost prefix = views(lines@);
            let n = http.headers.len();
            let mut i: usize = 0;
            assert(http.headers@.take(0) =~= Seq::<HttpHeader>::empty());
            assert(views(lines@) =~= prefix + header_lines(http.headers@.take(0)));
            while i < n
                invariant
                    i <= n == http.headers@.len(),
                    max_content_width == BOX_WIDTH - 10,
                    views(lines@) == prefix + header_lines(http.headers@.take(i as int)),
                decreases n - i,
            {
                let ghost done = http.headers@.take(i as int);
                let ghost next = http.headers@.take(i + 1);
                assert(next.drop_last() =~= done);
                assert(next.last() == http.headers@[i as int]);
                let ghost before = views(lines@);
                let header = &http.headers[i];
                if !header.key.as_str().is_empty() && !header.value.as_str().is_empty() {
                    let truncated_key = Self::truncate_text(
                        header.key.as_str(),
                        max_content_width / 2,
                    );
                    let truncated_value = Self::truncate_text(
                        header.value.as_str(),
                        max_content_width / 2,
                    );
                    let mut header_text = "  ".to_owned();
                    header_text.append(truncated_key.as_str());
                    header_text.append(": ");
                    header_text.append(truncated_value.as_str());
                    assert(header_text@ =~= header_line(*header));
                    lines.push(header_text);
                    assert(header_lines(next) =~= header_lines(done) + seq![header_line(*header)]);
                    assert(views(lines@) =~= before + seq![header_line(*header)]);
                } else {
                    assert(header_lines(next) =~= header_lines(done));
                }
                i = i + 1;
            }
            assert(http.headers@.take(n as int) =~= http.headers@);
        }
        assert(views(lines@) =~= http_lines(self.colors_on(), *http));
        lines
    }

    fn push_joined_line(lines: &mut Vec<String>, label: &str, items: &Vec<String>)
        ensures
            views(final(lines)@) == views(old(lines)@) + joined_line(label@, items@),
    {
        let ghost start = views(lines@);
        if items.len() != 0 {
            let all = join_strings(items, ", ");
            let truncated_all = Self::truncate_text(all.as_str(), BOX_WIDTH - 10);
            let mut line = label.to_owned();
            line.append(truncated_all.as_str());
            lines.push(line);
        }
        assert(views(lines@) =~= start + joined_line(label@, items@));
    }

    fn push_ip_lines(&self, lines: &mut Vec<String>, dns: &Dns)
        ensures
            views(final(lines)@) == views(old(lines)@) + dns_ip_lines(self.colors_on(), *dns),
    {
        let ghost on = self.colors_on();
        let ghost start = views(lines@);
        if dns.ips.len() != 0 {
            lines.push("Response IPs:".to_owned());
            let n = dns.ips.len();
            let mut i: usize = 0;
            while i < n
                invariant
                    i <= n == dns.ips@.len(),
                    on == self.colors_on(),
                    lines@.len() == start.len() + 1 + i,
                    views(lines@).take(start.len() as int + 1) == start + seq!["Response IPs:"@],
                    forall|j: int|
                        0 <= j < i ==> #[trigger] lines@[start.len() + 1 + j]@ == "  - "@ + painted(
                            on,
                            dns.ips@[j]@,
                            Color::Magenta,
                        ),
                decreases n - i,
            {
                let ghost before = views(lines@);
                let colored_ip = self.color_text(dns.ips[i].as_str(), Color::Magenta);
                let mut ip_line = "  - ".to_owned();
                ip_line.append(colored_ip.as_str());
                let ghost old_lines = lines@;
                lines.push(ip_line);
                assert(views(lines@).take(start.len() as int + 1) =~= before.take(
                    start.len() as int + 1,
                ));
                assert forall|j: int| 0 <= j < i + 1 implies #[trigger] lines@[start.len() + 1 + j]@
                    == "  - "@ + painted(on, dns.ips@[j]@, Color::Magenta) by {
                    if j < i {
                        assert(lines@[start.len() + 1 + j] == old_lines[start.len() + 1 + j]);
                    }
                }
                i = i + 1;
            }
            let ghost expected = start + dns_ip_lines(on, *dns);
            assert(views(lines@) =~= expected) by {
                assert forall|j: int| 0 <= j < lines@.len() implies views(lines@)[j] == expected[j] by {
                    if j < start.len() + 1 {
                        assert(views(lines@).take(start.len() as int + 1)[j] == views(lines@)[j]);
                    } else {
                        let k = j - start.len() - 1;
                        assert(lines@[start.len() + 1 + k]@ == "  - "@ + painted(
                            on,
                            dns.ips@[k]@,
                            Color::Magenta,
                        ));
                    }
                }
            }
        } else {
            assert(views(lines@) =~= start + dns_ip_lines(on, *dns));
        }
    }

    fn push_cname_lines(&self, lines: &mut Vec<String>, dns: &Dns)
        ensures
            views(final(lines)@) == views(old(lines)@) + dns_cname_lines(self.colors_on(), *dns),
    {
        let ghost on = self.colors_on();
        let ghost start = views(lines@);
        let max_content_width = BOX_WIDTH - 10;
        if dns.cnames.len() != 0 {
            lines.push("CNames:".to_owned());
            let n = dns.cnames.len();
            let mut i: usize = 0;
            while i < n
                invariant
                    i <= n == dns.cnames@.len(),
                    on == self.colors_on(),
                    max_content_width == BOX_WIDTH - 10,
                    lines@.len() == start.len() + 1 + i,
                    views(lines@).take(start.len() as int + 1) == start + seq!["CNames:"@],
                    forall|j: int|
                        0 <= j < i ==> #[trigger] lines@[start.len() + 1 + j]@ == "  - "@ + painted(
                            on,
                            truncated(dns.cnames@[j]@, (content_width() - 4) as nat),
                            Color::Cyan,
                        ),
                decreases n - i,
            {
                let ghost before = views(lines@);
                let truncated_cname = Self::truncate_text(
                    dns.cnames[i].as_str(),
                    max_content_width - 4,
                );
                let colored_cname = self.color_text(truncated_cname.as_str(), Color::Cyan);
                let mut cname_line = "  - ".to_owned();
                cname_line.append(colored_cname.as_str());
                let ghost old_lines = lines@;
                lines.push(cname_line);
                assert(views(lines@).take(start.len() as int + 1) =~= before.take(
                    start.len() as int + 1,
                ));
                assert forall|j: int| 0 <= j < i + 1 implies #[trigger] lines@[start.len() + 1 + j]@
                    == "  - "@ + painted(
                    on,
                    truncated(dns.cnames@[j]@, (content_width() - 4) as nat),
                    Color::Cyan,
                ) by {
                    if j < i {
                        assert(lines@[start.len() + 1 + j] == old_lines[start.len() + 1 + j]);
                    }
                }
                i = i + 1;
            }
            let ghost expected = start + dns_cname_lines(on, *dns);
            assert(views(lines@) =~= expected) by {
                assert forall|j: int| 0 <= j < lines@.len() implies views(lines@)[j] == expected[j] by {
                    if j < start.len() + 1 {
                        assert(views(lines@).take(start.len() as int + 1)[j] == views(lines@)[j]);
                    } else {
                        let k = j - start.len() - 1;
                        assert(lines@[start.len() + 1 + k]@ == "  - "@ + painted(
                            on,
                            truncated(dns.cnames@[k]@, (content_width() - 4) as nat),
                            Color::Cyan,
                        ));
                    }
                }
            }
        } else {
            assert(views(lines@) =~= start + dns_cname_lines(on, *dns));
        }
    }

    fn push_dns_tail_lines(lines: &mut Vec<String>, dns: &Dns)
        ensures
            views(final(lines)@) == views(old(lines)@) + dns_tail_lines(*dns),
    {
        let ghost start = views(lines@);
        if dns.ttl > 0 {
            let mut ttl_line = "TTL: ".to_owned();
            let ttl = format_u64(dns.ttl as u64);
            ttl_line.append(ttl.as_str());
            ttl_line.append("s");
            lines.push(ttl_line);
        }
        if dns.rcode > 0 {
            let mut rcode_line = "RCODE: ".to_owned();
            let rcode = format_u64(dns.rcode as u64);
            rcode_line.append(rcode.as_str());
            lines.push(rcode_line);
        }
        if !dns.observation_source.as_str().is_empty() {
            let truncated_source = Self::truncate_text(
                dns.observation_source.as_str(),
                BOX_WIDTH - 10,
            );
            let mut source_line = "Observation Source: ".to_owned();
            source_line.append(truncated_source.as_str());
            lines.push(source_line);
        }
        assert(views(lines@) =~= start + dns_tail_lines(*dns));
    }

    pub fn format_dns(&self, dns: &Dns) -> (r: Vec<String>)
        ensures
            views(r@) == dns_lines(self.colors_on(), *dns),
    {
        let mut lines: Vec<String> = Vec::new();
        let max_content_width = BOX_WIDTH - 10;
        let truncated_query = Self::truncate_text(dns.query.as_str(), max_content_width);
        let colored_query = self.color_text(truncated_query.as_str(), Color::Cyan);
        let mut query_line = "Query: ".to_owned();
        query_line.append(colored_query.as_str());
        lines.push(query_line);
        Self::push_joined_line(&mut lines, "QTypes: ", &dns.qtypes);
        self.push_ip_lines(&mut lines, dns);
        Self::push_joined_line(&mut lines, "RRTypes: ", &dns.rrtypes);
        self.push_cname_lines(&mut lines, dns);
        Self::push_dns_tail_lines(&mut lines, dns);
        assert(views(lines@) =~= dns_lines(self.colors_on(), *dns));
        lines
    }

    pub fn format_l7(&self, l7: &Layer7) -> (r: Vec<String>)
        ensures
            views(r@) == l7_lines(self.colors_on(), *l7),
    {
        let mut lines: Vec<String> = Vec::new();
        if let Some(record) = &l7.record {
            match record {
                Record::Http(http) => {
                    lines = self.format_http(http);
                },
                Record::Dns(dns) => {
                    lines = self.format_dns(dns);
                },
                _ => {},
            }
        }
        if l7.latency_ns > 0 {
            let latency_ms = l7.latency_ns / 1_000_000;
            let mut latency_line = "Latency: ".to_owned();
            let ms = format_u64(latency_ms);
            latency_line.append(ms.as_str());
            latency_line.append("ms");
            lines.push(latency_line);
        }
        assert(views(lines@) =~= l7_lines(self.colors_on(), *l7));
        lines
    }

    fn push_flow_header(&self, lines: &mut Vec<String>, flow: &Flow)
        ensures
            views(final(lines)@) == views(old(lines)@) + flow_header_lines(self.colors_on(), *flow),
            time_text_plain(*flow),
    {
        let ghost start = views(lines@);
        if let Some(time) = &flow.time {
            let mut time_line = "Time: ".to_owned();
            let stamp = self.format_timestamp(time);
            time_line.append(stamp.as_str());
            lines.push(time_line);
        }
        if !flow.node_name.as_str().is_empty() {
            let mut node_line = "Node: ".to_owned();
            node_line.append(flow.node_name.as_str());
            lines.push(node_line);
        }
        let direction = match flow.traffic_direction {
            1 => "Ingress",
            2 => "Egress",
            _ => "Unknown",
        };
        let mut direction_line = "Direction: ".to_owned();
        direction_line.append(direction);
        lines.push(direction_line);
        let flow_type_str = Self::format_flow_type(flow.flow_type);
        let colored_type = self.color_text(flow_type_str.as_str(), Color::Yellow);
        let mut type_line = "Type: ".to_owned();
        type_line.append(colored_type.as_str());
        lines.push(type_line);
        assert(views(lines@) =~= start + flow_header_lines(self.colors_on(), *flow));
    }

    fn push_endpoint_section(
        &self,
        lines: &mut Vec<String>,
        title: &str,
        ep: &Option<Endpoint>,
        service: &Option<Service>,
    )
        ensures
            views(final(lines)@) == views(old(lines)@) + endpoint_section(
                self.colors_on(),
                title@,
                *ep,
                *service,
            ),
    {
        let ghost start = views(lines@);
        if let Some(endpoint) = ep {
            lines.push(String::new());
            let endpoint_lines = self.format_endpoint(endpoint, service.as_ref());
            let mut section_lines = self.draw_section(title, endpoint_lines);
            lines.append(&mut section_lines);
        }
        assert(views(lines@) =~= start + endpoint_section(self.colors_on(), title@, *ep, *service));
    }

    fn push_ip_sections(&self, lines: &mut Vec<String>, flow: &Flow)
        ensures
            views(final(lines)@) == views(old(lines)@) + ip_section(self.colors_on(), flow.ip)
                + l4_section(self.colors_on(), flow.ip, flow.l4),
    {
        let ghost start = views(lines@);
        if let Some(ip_ref) = &flow.ip {
            lines.push(String::new());
            let mut source_line = "Source IP: ".to_owned();
            let source = self.color_text(ip_ref.source.as_str(), Color::Magenta);
            source_line.append(source.as_str());
            let mut dest_line = "Dest IP: ".to_owned();
            let dest = self.color_text(ip_ref.destination.as_str(), Color::Magenta);
            dest_line.append(dest.as_str());
            let mut ip_lines: Vec<String> = Vec::new();
            ip_lines.push(source_line);
            ip_lines.push(dest_line);
            proof {
                assert(views(ip_lines@) =~= seq![
                    "Source IP: "@ + painted(self.colors_on(), ip_ref.source@, Color::Magenta),
                    "Dest IP: "@ + painted(self.colors_on(), ip_ref.destination@, Color::Magenta),
                ]);
            }
            let mut ip_section_lines = self.draw_section("IP", ip_lines);
            lines.append(&mut ip_section_lines);
        }
        let ghost with_ip = views(lines@);
        assert(with_ip =~= start + ip_section(self.colors_on(), flow.ip));
        if let Some(ip_ref) = &flow.ip {
            if let Some(l4) = &flow.l4 {
                lines.push(String::new());
                let l4_lines = self.format_l4(l4, ip_ref);
                let mut l4_section_lines = self.draw_section("LAYER 4", l4_lines);
                lines.append(&mut l4_section_lines);
            }
        }
        assert(views(lines@) =~= with_ip + l4_section(self.colors_on(), flow.ip, flow.l4));
    }

    fn push_l7_section(&self, lines: &mut Vec<String>, flow: &Flow)
        ensures
            views(final(lines)@) == views(old(lines)@) + l7_section(self.colors_on(), flow.l7),
    {
        let ghost start = views(lines@);
        if let Some(l7) = &flow.l7 {
            lines.push(String::new());
            let l7_lines = self.format_l7(l7);
            if l7_lines.len() != 0 {
                let l7_type = match &l7.record {
                    Some(Record::Http(_)) => "HTTP",
                    Some(Record::Dns(_)) => "DNS",
                    _ => "L7",
                };
                let mut title = "LAYER 7 (".to_owned();
                title.append(l7_type);
                title.append(")");
                let mut l7_section_lines = self.draw_section(title.as_str(), l7_lines);
                lines.append(&mut l7_section_lines);
            }
        }
        assert(views(lines@) =~= start + l7_section(self.colors_on(), flow.l7));
    }

    pub fn format_flow(&self, response: &GetFlowsResponse) -> (r: String)
        ensures
            r@ == rendered(self.colors_on(), *response),
            response.response_types matches Some(ResponseTypes::Flow(f)) ==> time_text_plain(f),
            response.response_types matches Some(ResponseTypes::Flow(f)) && !self.colors_on()
                && flow_lacks(f, esc()) ==> lacks(r@, esc()),
    {
        if let Some(ResponseTypes::Flow(flow)) = &response.response_types {
            let verdict = flow.verdict;
            let mut content_lines: Vec<String> = Vec::new();
            self.push_flow_header(&mut content_lines, flow);
            self.push_endpoint_section(
                &mut content_lines,
                "SOURCE",
                &flow.source,
                &flow.source_service,
            );
            self.push_endpoint_section(
                &mut content_lines,
                "DESTINATION",
                &flow.destination,
                &flow.destination_service,
            );
            self.push_ip_sections(&mut content_lines, flow);
            self.push_l7_section(&mut content_lines, flow);
            content_lines.push(String::new());
            let (emoji, text) = if verdict == Verdict::Dropped.code() {
                ("\u{1f6a8}", "DROPPED")
            } else if verdict == Verdict::Forwarded.code() {
                ("\u{2705}", "FORWARDED")
            } else {
                ("\u{26a0}\u{fe0f}", "UNKNOWN")
            };
            let mut action_text = "Action: ".to_owned();
            action_text.append(emoji);
            action_text.append(" ");
            action_text.append(text);
            content_lines.push(action_text);
            assert(views(content_lines@) =~= flow_lines(self.colors_on(), *flow));
            let r = self.draw_box(content_lines);
            proof {
                if !self.colors_on() && flow_lacks(*flow, esc()) {
                    law_plain_rendering_has_no_escape(*response, *flow);
                }
            }
            r
        } else {
            String::new()
        }
    }

    fn is_ascii_letter(c: char) -> (r: bool)
        ensures
            r == is_ascii_alpha(c),
    {
        ('a' <= c && c <= 'z') || ('A' <= c && c <= 'Z')
    }

    fn append_ellipsis(s: &mut String)
        ensures
            final(s)@ == old(s)@ + ellipsis(),
    {
        proof {
            reveal_strlit("...");
        }
        s.append("...");
    }

    pub fn truncate_text(text: &str, max_width: usize) -> (r: String)
        ensures
            r@ == truncated(text@, max_width as nat),
    {
        let visible = Self::visible_width(text);
        if visible <= max_width {
            return text.to_owned();
        }
        let chars = chars_of(text);
        let n = chars.len();
        let target = max_width.saturating_sub(3);
        let mut result = String::new();
        let mut current_width: usize = 0;
        let mut in_escape = false;
        let mut i: usize = 0;
        assert(chars@.skip(0) =~= chars@);
        assert(result@ + truncate_scan(chars@, target as nat, false) =~= truncate_scan(
            chars@,
            target as nat,
            false,
        ));
        while i < n
            invariant
                i <= n == chars@.len(),
                chars@ == text@,
                current_width <= target,
                visible_len(text@) > max_width,
                target == (if max_width >= 3 { max_width - 3 } else { 0 }),
                result@ + truncate_scan(
                    chars@.skip(i as int),
                    (target - current_width) as nat,
                    in_escape,
                ) == truncate_scan(text@, target as nat, false),
            decreases n - i,
        {
            let ghost rest = chars@.skip(i as int);
            let ghost budget = (target - current_width) as nat;
            let c = chars[i];
            if in_escape {
                // Inside "ESC [": copy up to and including the first ASCII letter.
                assert(rest.drop_first() =~= chars@.skip(i + 1));
                assert(result@ + truncate_scan(rest, budget, true) =~= result@.push(c)
                    + truncate_scan(chars@.skip(i + 1), budget, !is_ascii_alpha(c)));
                push_char(&mut result, c);
                in_escape = !Self::is_ascii_letter(c);
                i = i + 1;
            } else if c == '\x1b' && i + 1 < n && chars[i + 1] == '[' {
                assert(rest.skip(2) =~= chars@.skip(i + 2));
                assert(result@ + truncate_scan(rest, budget, false) =~= result@.push(c)
                    + truncate_scan(chars@.skip(i + 2), budget, true));
                push_char(&mut result, c);
                in_escape = true;
                i = i + 2;
            } else if current_width >= target {
                assert(rest[0] == c);
                assert(!is_csi_start(rest, 0));
                assert(truncate_scan(rest, budget, false) == ellipsis());
                Self::append_ellipsis(&mut result);
                return result;
            } else {
                assert(rest.drop_first() =~= chars@.skip(i + 1));
                assert(result@ + truncate_scan(rest, budget, false) =~= result@.push(c)
                    + truncate_scan(chars@.skip(i + 1), (budget - 1) as nat, false));
                push_char(&mut result, c);
                current_width = current_width + 1;
                i = i + 1;
            }
        }
        assert(chars@.skip(i as int) =~= Seq::<char>::empty());
        Self::append_ellipsis(&mut result);
        result
    }
}

} // verus!
