use vstd::prelude::*;
use crate::flow::{
    Dns, Endpoint, Flow, GetFlowsResponse, Http, HttpHeader, Layer4, Layer7, Record, ResponseTypes,
    Service,
};
use crate::formatter::{
    action_line, box_line, box_rule, content_width, direction_text, dns_cname_lines, dns_ip_lines,
    dns_lines, dns_tail_lines, endpoint_lines, endpoint_section, esc, flow_header_lines,
    flow_lines, flow_type_text, header_line, header_lines, http_lines, http_status_text,
    ip_section, is_ascii_alpha, is_csi_start, joined_line, l4_lines, l4_section, l7_kind,
    l7_lines, l7_section, padded, painted, rendered, section, section_header, strip_ansi,
    time_text_plain, timestamp_text, truncate_scan, truncated, visible_len, Color, BOX_WIDTH,
};
use crate::flow_laws::{flow_lacks, law_flow_box_lines, lemma_box_line_of_fitting};
use crate::laws::{lemma_byte_len_le_four_times, lemma_spaces, no_escape};
use crate::text::{
    byte_len, decimal, lacks, lemma_lacks_concat, lemma_repeat_lacks, repeat_seq, split_lines,
};

verus! {

/// True when a line opens with the light rule character that opens a section header.
pub open spec fn opens_with_rule(l: Seq<char>) -> bool {
    l.len() > 0 && l[0] == '\u{2500}'
}

/// The title of an application-layer section for a record kind.
pub open spec fn layer7_title(kind: Seq<char>) -> Seq<char> {
    "LAYER 7 ("@ + kind + ")"@
}

/// The record kinds that an application-layer section names.
pub open spec fn is_l7_kind(kind: Seq<char>) -> bool {
    kind == "HTTP"@ || kind == "DNS"@ || kind == "L7"@
}

/// The titles of the sections that a flow's box can hold.
pub open spec fn is_section_title(t: Seq<char>) -> bool {
    ||| t == "SOURCE"@
    ||| t == "DESTINATION"@
    ||| t == "IP"@
    ||| t == "LAYER 4"@
    ||| t == layer7_title("HTTP"@)
    ||| t == layer7_title("DNS"@)
    ||| t == layer7_title("L7"@)
}

/// The line of the box that shows the header of a section.
pub open spec fn section_line(title: Seq<char>) -> Seq<char> {
    box_line(section_header(title))
}

/// What sets a section's line apart: it opens with the light rule and holds neither an
/// arrow nor a dot.
pub open spec fn header_like(h: Seq<char>) -> bool {
    &&& opens_with_rule(h)
    &&& lacks(h, '\u{2192}')
    &&& lacks(h, '.')
}

/// A cut of a text that leaves room for "..." keeps its first character.
proof fn lemma_truncated_first(s: Seq<char>, w: nat)
    requires
        s.len() > 0,
        w >= 4,
    ensures
        truncated(s, w).len() > 0,
        truncated(s, w)[0] == s[0],
{
    let b = (w - 3) as nat;
    if !(visible_len(s) <= w) {
        let r = truncate_scan(s, b, false);
        if is_csi_start(s, 0) {
            assert(r == seq![esc()] + truncate_scan(s.skip(2), b, true));
        } else {
            assert(r == seq![s[0]] + truncate_scan(s.drop_first(), (b - 1) as nat, false));
        }
    }
}

/// A scan that cuts a text always ends with a dot.
proof fn lemma_truncate_scan_dots(s: Seq<char>, budget: nat, in_escape: bool)
    ensures
        truncate_scan(s, budget, in_escape).len() > 0,
        truncate_scan(s, budget, in_escape).last() == '.',
    decreases s.len(),
{
    if s.len() == 0 {
    } else if in_escape {
        lemma_truncate_scan_dots(s.drop_first(), budget, !is_ascii_alpha(s[0]));
    } else if is_csi_start(s, 0) {
        lemma_truncate_scan_dots(s.skip(2), budget, true);
    } else if budget == 0 {
    } else {
        lemma_truncate_scan_dots(s.drop_first(), (budget - 1) as nat, false);
    }
}

/// A character of a text survives its cut, or the cut holds a dot.
proof fn lemma_truncated_keeps(s: Seq<char>, w: nat, c: char)
    requires
        !lacks(s, c),
    ensures
        !lacks(truncated(s, w), c) || !lacks(truncated(s, w), '.'),
{
    if !(visible_len(s) <= w) {
        let r = truncated(s, w);
        lemma_truncate_scan_dots(s, if w >= 3 { (w - 3) as nat } else { 0 }, false);
        assert(r[r.len() - 1] == '.');
    }
}

/// Filling keeps the text in front.
proof fn lemma_padded_prefix(s: Seq<char>, w: nat)
    ensures
        padded(s, w).len() >= s.len(),
        forall|i: int| 0 <= i < s.len() ==> #[trigger] padded(s, w)[i] == s[i],
{
}

/// A character of a line survives in its box line, or the box line holds a dot.
proof fn lemma_box_line_keeps(s: Seq<char>, c: char)
    requires
        !lacks(s, c),
    ensures
        !lacks(box_line(s), c) || !lacks(box_line(s), '.'),
{
    let t = truncated(s, BOX_WIDTH as nat);
    lemma_truncated_keeps(s, BOX_WIDTH as nat, c);
    lemma_padded_prefix(t, BOX_WIDTH as nat);
    if !lacks(t, c) {
        let i = choose|i: int| 0 <= i < t.len() && t[i] == c;
        assert(box_line(s)[i] == c);
    } else {
        let i = choose|i: int| 0 <= i < t.len() && t[i] == '.';
        assert(box_line(s)[i] == '.');
    }
}

/// A line that does not open with the light rule gives a box line that does not either.
proof fn lemma_box_line_opening(l: Seq<char>)
    requires
        !opens_with_rule(l),
    ensures
        !opens_with_rule(box_line(l)),
{
    let t = truncated(l, BOX_WIDTH as nat);
    lemma_padded_prefix(t, BOX_WIDTH as nat);
    if l.len() > 0 {
        lemma_truncated_first(l, BOX_WIDTH as nat);
    } else {
        assert(visible_len(l) == 0) by {
            assert(strip_ansi(l) == l);
        }
        assert(t == l);
        reveal_strlit(" ");
        lemma_repeat_lacks(" "@, BOX_WIDTH as nat, '\u{2500}');
        let n = (BOX_WIDTH - visible_len(t)) as nat;
        assert(box_line(l) == t + repeat_seq(" "@, n));
        lemma_spaces(n);
        assert(box_line(l) =~= repeat_seq(" "@, n));
    }
}

/// A line that does not open with the light rule never shows as a section's line.
proof fn lemma_plain_line_unlike(l: Seq<char>, h: Seq<char>)
    requires
        !opens_with_rule(l),
        header_like(h),
    ensures
        box_line(l) != h,
{
    lemma_box_line_opening(l);
}

/// True when a line of a section's content can never show as a section's line: it does not
/// open with the light rule, or it holds an arrow.
pub open spec fn unlike_header(x: Seq<char>) -> bool {
    !opens_with_rule(x) || !lacks(x, '\u{2192}')
}

/// A line of a section's content, once cut to the section's width and put in the box, never
/// shows as a section's line.
proof fn lemma_content_line_unlike(x: Seq<char>, h: Seq<char>)
    requires
        unlike_header(x),
        header_like(h),
    ensures
        box_line(truncated(x, (BOX_WIDTH - 2) as nat)) != h,
{
    let w = (BOX_WIDTH - 2) as nat;
    let c = truncated(x, w);
    if !opens_with_rule(x) {
        if x.len() > 0 {
            lemma_truncated_first(x, w);
        } else {
            assert(strip_ansi(x) == x);
            assert(c == x);
        }
        lemma_plain_line_unlike(c, h);
    } else {
        lemma_truncated_keeps(x, w, '\u{2192}');
        if !lacks(c, '\u{2192}') {
            lemma_box_line_keeps(c, '\u{2192}');
        } else {
            lemma_box_line_keeps(c, '.');
        }
    }
}

/// The titles hold no arrow, dot or escape, and are short.
proof fn lemma_title_facts(t: Seq<char>)
    requires
        is_section_title(t),
    ensures
        lacks(t, '\u{2192}'),
        lacks(t, '.'),
        lacks(t, esc()),
        0 < t.len() <= 14,
{
    broadcast use lemma_lacks_concat;

    reveal_strlit("SOURCE");
    reveal_strlit("DESTINATION");
    reveal_strlit("IP");
    reveal_strlit("LAYER 4");
    reveal_strlit("LAYER 7 (");
    reveal_strlit("HTTP");
    reveal_strlit("DNS");
    reveal_strlit("L7");
    reveal_strlit(")");
}

/// The line of a section is its header followed by spaces to the box width; it opens with
/// the light rule, holds no arrow or dot, and shows the title from its third character on.
proof fn lemma_section_line_shape(t: Seq<char>)
    requires
        is_section_title(t),
    ensures
        byte_len(section_header(t)) <= BOX_WIDTH,
        section_line(t) == section_header(t) + repeat_seq(
            " "@,
            (BOX_WIDTH - byte_len(section_header(t))) as nat,
        ),
        header_like(section_line(t)),
        forall|j: int| 0 <= j < t.len() ==> #[trigger] section_line(t)[2 + j] == t[j],
{
    broadcast use lemma_lacks_concat;

    lemma_title_facts(t);
    reveal_strlit("\u{2500} ");
    reveal_strlit(" \u{2500}");
    reveal_strlit(" ");
    let hdr = section_header(t);
    assert(lacks(hdr, esc()));
    assert(no_escape(hdr));
    lemma_byte_len_le_four_times(hdr);
    lemma_box_line_of_fitting(hdr);
    let n = (BOX_WIDTH - byte_len(hdr)) as nat;
    lemma_repeat_lacks(" "@, n, '\u{2192}');
    lemma_repeat_lacks(" "@, n, '.');
    assert(hdr[0] == '\u{2500}');
    assert forall|j: int| 0 <= j < t.len() implies #[trigger] section_line(t)[2 + j] == t[j] by {
        assert(hdr[2 + j] == t[j]);
    }
}

/// Sections of different titles show different lines.
proof fn lemma_section_lines_differ(a: Seq<char>, b: Seq<char>)
    requires
        is_section_title(a),
        is_section_title(b),
        a != b,
    ensures
        section_line(a) != section_line(b),
{
    lemma_section_line_shape(a);
    lemma_section_line_shape(b);
    reveal_strlit("SOURCE");
    reveal_strlit("DESTINATION");
    reveal_strlit("IP");
    reveal_strlit("LAYER 4");
    reveal_strlit("LAYER 7 (");
    reveal_strlit("HTTP");
    reveal_strlit("DNS");
    reveal_strlit("L7");
    reveal_strlit(")");
    if section_line(a) == section_line(b) {
        assert(section_line(a)[2int + 0] == a[0]);
        assert(section_line(b)[2int + 0] == b[0]);
        if a.len() > 6 && b.len() > 6 {
            assert(section_line(a)[2int + 6] == a[6]);
            assert(section_line(b)[2int + 6] == b[6]);
            if a.len() > 9 && b.len() > 9 {
                assert(section_line(a)[2int + 9] == a[9]);
                assert(section_line(b)[2int + 9] == b[9]);
            }
        }
        assert(false);
    }
}

/// True when no line of `seg`, put in the box, shows as `h`.
pub open spec fn misses(seg: Seq<Seq<char>>, h: Seq<char>) -> bool {
    forall|i: int| 0 <= i < seg.len() ==> box_line(#[trigger] seg[i]) != h
}

/// Where `h` shows among the box lines of `seg`: at `k` and nowhere else, or, for a negative
/// `k`, nowhere.
pub open spec fn found_at(seg: Seq<Seq<char>>, h: Seq<char>, k: int) -> bool {
    if k < 0 {
        misses(seg, h)
    } else {
        &&& k < seg.len()
        &&& box_line(seg[k]) == h
        &&& forall|i: int| 0 <= i < seg.len() && box_line(#[trigger] seg[i]) == h ==> i == k
    }
}

/// Putting two runs of lines together, where at most one shows `h`.
proof fn lemma_found_concat(a: Seq<Seq<char>>, b: Seq<Seq<char>>, h: Seq<char>, ka: int, kb: int)
    requires
        found_at(a, h, ka),
        found_at(b, h, kb),
        ka < 0 || kb < 0,
    ensures
        found_at(a + b, h, if ka >= 0 { ka } else if kb >= 0 { a.len() + kb } else { -1 }),
{
    let ab = a + b;
    assert forall|i: int| 0 <= i < ab.len() && box_line(#[trigger] ab[i]) == h implies (if ka
        >= 0 {
        i == ka
    } else {
        kb >= 0 && i == a.len() + kb
    }) by {
        if i < a.len() {
            assert(ab[i] == a[i]);
        } else {
            assert(ab[i] == b[i - a.len()]);
        }
    }
    if ka >= 0 {
        assert(ab[ka] == a[ka]);
    } else if kb >= 0 {
        assert(ab[a.len() + kb] == b[kb]);
    }
}

/// True when no line opens with the light rule.
pub open spec fn all_plain(lines: Seq<Seq<char>>) -> bool {
    forall|i: int| 0 <= i < lines.len() ==> !opens_with_rule(#[trigger] lines[i])
}

/// True when no line of a section's content can show as a section's line.
pub open spec fn all_unlike(lines: Seq<Seq<char>>) -> bool {
    forall|i: int| 0 <= i < lines.len() ==> unlike_header(#[trigger] lines[i])
}

pub broadcast proof fn lemma_all_plain_concat(a: Seq<Seq<char>>, b: Seq<Seq<char>>)
    ensures
        #[trigger] all_plain(a + b) == (all_plain(a) && all_plain(b)),
{
    if all_plain(a + b) {
        assert forall|i: int| 0 <= i < b.len() implies !opens_with_rule(#[trigger] b[i]) by {
            assert((a + b)[a.len() + i] == b[i]);
        }
        assert forall|i: int| 0 <= i < a.len() implies !opens_with_rule(#[trigger] a[i]) by {
            assert((a + b)[i] == a[i]);
        }
    }
    if all_plain(a) && all_plain(b) {
        assert forall|i: int| 0 <= i < (a + b).len() implies !opens_with_rule(
            #[trigger] (a + b)[i],
        ) by {
            if i < a.len() {
                assert((a + b)[i] == a[i]);
            } else {
                assert((a + b)[i] == b[i - a.len()]);
            }
        }
    }
}

pub broadcast proof fn lemma_all_unlike_concat(a: Seq<Seq<char>>, b: Seq<Seq<char>>)
    ensures
        #[trigger] all_unlike(a + b) == (all_unlike(a) && all_unlike(b)),
{
    if all_unlike(a + b) {
        assert forall|i: int| 0 <= i < b.len() implies unlike_header(#[trigger] b[i]) by {
            assert((a + b)[a.len() + i] == b[i]);
        }
        assert forall|i: int| 0 <= i < a.len() implies unlike_header(#[trigger] a[i]) by {
            assert((a + b)[i] == a[i]);
        }
    }
    if all_unlike(a) && all_unlike(b) {
        assert forall|i: int| 0 <= i < (a + b).len() implies unlike_header(#[trigger] (a + b)[i]) by {
            if i < a.len() {
                assert((a + b)[i] == a[i]);
            } else {
                assert((a + b)[i] == b[i - a.len()]);
            }
        }
    }
}

/// Lines that never open with the light rule never show as a section's line.
proof fn lemma_plain_misses(seg: Seq<Seq<char>>, h: Seq<char>)
    requires
        all_plain(seg),
        header_like(h),
    ensures
        misses(seg, h),
{
    assert forall|i: int| 0 <= i < seg.len() implies box_line(#[trigger] seg[i]) != h by {
        lemma_plain_line_unlike(seg[i], h);
    }
}

/// A blank line and a section: its header shows once, right after the blank line, and no
/// other section's line shows.
proof fn lemma_section_found(title: Seq<char>, content: Seq<Seq<char>>, t: Seq<char>)
    requires
        is_section_title(title),
        is_section_title(t),
        all_unlike(content),
    ensures
        found_at(
            seq![Seq::<char>::empty()] + section(title, content),
            section_line(t),
            if t == title { 1 } else { -1 },
        ),
{
    let seg = seq![Seq::<char>::empty()] + section(title, content);
    let h = section_line(t);
    lemma_section_line_shape(t);
    if t != title {
        lemma_section_lines_differ(t, title);
    }
    assert forall|i: int| 0 <= i < seg.len() && i != 1 implies box_line(#[trigger] seg[i]) != h by {
        if i == 0 {
            assert(seg[0] == Seq::<char>::empty());
            lemma_plain_line_unlike(seg[0], h);
        } else {
            assert(seg[i] == truncated(content[i - 2], (BOX_WIDTH - 2) as nat));
            lemma_content_line_unlike(content[i - 2], h);
        }
    }
    assert(seg[1] == section_header(title));
}

/// A line that starts with a fixed text neither opens with the light rule nor, so, looks like
/// a section's line.
proof fn lemma_led_by(p: Seq<char>, x: Seq<char>)
    requires
        p.len() > 0,
        p[0] != '\u{2500}',
    ensures
        !opens_with_rule(p + x),
        unlike_header(p + x),
{
    assert((p + x)[0] == p[0]);
}

/// The lines that open a flow's box never open with the light rule.
proof fn lemma_flow_header_plain(on: bool, flow: Flow)
    ensures
        all_plain(flow_header_lines(on, flow)),
{
    broadcast use lemma_all_plain_concat;

    reveal_strlit("Time: ");
    reveal_strlit("Node: ");
    reveal_strlit("Direction: ");
    reveal_strlit("Type: ");
    let d = "Direction: "@ + direction_text(flow.traffic_direction);
    let ty = "Type: "@ + painted(
        on,
        flow_type_text(flow.flow_type),
        Color::Yellow,
    );
    lemma_led_by("Direction: "@, direction_text(flow.traffic_direction));
    lemma_led_by(
        "Type: "@,
        painted(
            on,
            flow_type_text(flow.flow_type),
            Color::Yellow,
        ),
    );
    assert(all_plain(seq![d, ty]));
    match flow.time {
        Some(t) => {
            lemma_led_by("Time: "@, timestamp_text(t.seconds, t.nanos));
            assert(all_plain(
                seq!["Time: "@ + timestamp_text(t.seconds, t.nanos)],
            ));
        },
        None => {},
    }
    lemma_led_by("Node: "@, flow.node_name@);
    assert(all_plain(seq!["Node: "@ + flow.node_name@]));
}

/// The last two lines of a flow's box never open with the light rule.
proof fn lemma_flow_tail_plain(verdict: i32)
    ensures
        all_plain(seq![Seq::<char>::empty(), action_line(verdict)]),
{
    reveal_strlit("Action: ");
    assert(action_line(verdict)[0] == 'A');
}

proof fn lemma_endpoint_unlike(on: bool, ep: Endpoint, svc: Option<Service>)
    ensures
        all_unlike(endpoint_lines(on, ep, svc)),
{
    reveal_strlit("Pod: ");
    reveal_strlit("Service: ");
    let lines = endpoint_lines(on, ep, svc);
    assert forall|i: int| 0 <= i < lines.len() implies unlike_header(#[trigger] lines[i]) by {
        assert(lines[i][0] == 'P' || lines[i][0] == 'S');
    }
}

proof fn lemma_l4_unlike(on: bool, l4: Layer4)
    ensures
        all_unlike(l4_lines(on, l4)),
{
    reveal_strlit("Protocol: ");
    reveal_strlit("Ports: ");
    reveal_strlit("Flags: ");
    let lines = l4_lines(on, l4);
    assert forall|i: int| 0 <= i < lines.len() implies unlike_header(#[trigger] lines[i]) by {
        assert(lines[i][0] == 'P' || lines[i][0] == 'F');
    }
}

proof fn lemma_header_lines_unlike(hs: Seq<HttpHeader>)
    ensures
        all_unlike(header_lines(hs)),
    decreases hs.len(),
{
    broadcast use lemma_all_unlike_concat;

    if hs.len() > 0 {
        lemma_header_lines_unlike(hs.drop_last());
        reveal_strlit("  ");
        let l = header_line(hs.last());
        assert(l[0] == ' ');
        assert(all_unlike(seq![l]));
    }
}

/// The request line of an HTTP exchange always holds the arrow; the other lines start with
/// fixed text.
proof fn lemma_http_unlike(on: bool, http: Http)
    ensures
        all_unlike(http_lines(on, http)),
{
    broadcast use lemma_all_unlike_concat;

    reveal_strlit(" \u{2192} ");
    reveal_strlit("Headers:");
    let a = painted(on, http.method@, Color::Yellow) + " "@
        + truncated(http.url@, content_width());
    let r = a + " \u{2192} "@ + http_status_text(http.code);
    assert(r[a.len() as int + 1] == '\u{2192}');
    assert(unlike_header(r));
    assert(all_unlike(seq![r]));
    lemma_header_lines_unlike(http.headers@);
    assert(all_unlike(seq!["Headers:"@]));
}

proof fn lemma_dns_unlike(on: bool, dns: Dns)
    ensures
        all_unlike(dns_lines(on, dns)),
{
    broadcast use lemma_all_unlike_concat;

    reveal_strlit("Query: ");
    reveal_strlit("QTypes: ");
    reveal_strlit("RRTypes: ");
    reveal_strlit("Response IPs:");
    reveal_strlit("CNames:");
    reveal_strlit("  - ");
    reveal_strlit("TTL: ");
    reveal_strlit("RCODE: ");
    reveal_strlit("Observation Source: ");
    let q = seq![
        "Query: "@ + painted(
            on,
            truncated(dns.query@, content_width()),
            Color::Cyan,
        ),
    ];
    assert(q[0][0] == 'Q');
    assert(all_unlike(q));
    let qt = joined_line("QTypes: "@, dns.qtypes@);
    assert forall|i: int| 0 <= i < qt.len() implies unlike_header(#[trigger] qt[i]) by {
        assert(qt[i][0] == 'Q');
    }
    let rr = joined_line("RRTypes: "@, dns.rrtypes@);
    assert forall|i: int| 0 <= i < rr.len() implies unlike_header(#[trigger] rr[i]) by {
        assert(rr[i][0] == 'R');
    }
    let ips = dns_ip_lines(on, dns);
    assert forall|i: int| 0 <= i < ips.len() implies unlike_header(#[trigger] ips[i]) by {
        assert(ips[i][0] == 'R' || ips[i][0] == ' ');
    }
    let cn = dns_cname_lines(on, dns);
    assert forall|i: int| 0 <= i < cn.len() implies unlike_header(#[trigger] cn[i]) by {
        assert(cn[i][0] == 'C' || cn[i][0] == ' ');
    }
    let tail = dns_tail_lines(dns);
    assert forall|i: int| 0 <= i < tail.len() implies unlike_header(#[trigger] tail[i]) by {
        assert(tail[i][0] == 'T' || tail[i][0] == 'R' || tail[i][0] == 'O');
    }
}

proof fn lemma_l7_unlike(on: bool, l7: Layer7)
    ensures
        all_unlike(l7_lines(on, l7)),
{
    broadcast use lemma_all_unlike_concat;

    match l7.record {
        Some(Record::Http(http)) => lemma_http_unlike(on, http),
        Some(Record::Dns(dns)) => lemma_dns_unlike(on, dns),
        _ => {},
    }
    reveal_strlit("Latency: ");
    if l7.latency_ns > 0 {
        let l = "Latency: "@ + decimal((l7.latency_ns / 1_000_000) as nat) + "ms"@;
        assert(l[0] == 'L');
        assert(all_unlike(seq![l]));
    }
}

/// True when the box of a flow holds the section of that title: the endpoint sections when the
/// flow has the endpoint, the address section when it has addresses, the transport section
/// when it has addresses and a transport layer, and the application section, titled by its
/// record kind, when its lines are not empty.
pub open spec fn section_present(on: bool, flow: Flow, t: Seq<char>) -> bool {
    if t == "SOURCE"@ {
        flow.source is Some
    } else if t == "DESTINATION"@ {
        flow.destination is Some
    } else if t == "IP"@ {
        flow.ip is Some
    } else if t == "LAYER 4"@ {
        flow.ip is Some && flow.l4 is Some
    } else {
        match flow.l7 {
            Some(l7) => l7_lines(on, l7).len() != 0 && t == layer7_title(l7_kind(l7.record)),
            None => false,
        }
    }
}

/// Where, among the lines inside a flow's box, the header of the section of that title stands.
pub open spec fn section_index(on: bool, flow: Flow, t: Seq<char>) -> int {
    let o1: int = flow_header_lines(on, flow).len() as int;
    let o2: int = o1 + endpoint_section(on, "SOURCE"@, flow.source, flow.source_service).len();
    let o3: int = o2 + endpoint_section(
        on,
        "DESTINATION"@,
        flow.destination,
        flow.destination_service,
    ).len();
    let o4: int = o3 + ip_section(on, flow.ip).len();
    let o5: int = o4 + l4_section(on, flow.ip, flow.l4).len();
    if t == "SOURCE"@ {
        o1 + 1
    } else if t == "DESTINATION"@ {
        o2 + 1
    } else if t == "IP"@ {
        o3 + 1
    } else if t == "LAYER 4"@ {
        o4 + 1
    } else {
        o5 + 1
    }
}

/// Among the box lines of a flow, the header of a section shows exactly where the section
/// stands when the flow has it, and nowhere when it does not.
proof fn lemma_sections_in_flow(on: bool, flow: Flow, t: Seq<char>)
    requires
        is_section_title(t),
    ensures
        found_at(
            flow_lines(on, flow),
            section_line(t),
            if section_present(on, flow, t) { section_index(on, flow, t) } else { -1 },
        ),
{
    reveal_strlit("SOURCE");
    reveal_strlit("DESTINATION");
    reveal_strlit("IP");
    reveal_strlit("LAYER 4");
    reveal_strlit("LAYER 7 (");
    reveal_strlit("HTTP");
    reveal_strlit("DNS");
    reveal_strlit("L7");
    reveal_strlit(")");
    reveal_strlit("Source IP: ");
    reveal_strlit("Dest IP: ");
    let h = section_line(t);
    lemma_section_line_shape(t);
    let p0 = flow_header_lines(on, flow);
    lemma_flow_header_plain(on, flow);
    lemma_plain_misses(p0, h);
    assert(found_at(p0, h, -1));
    // The source endpoint.
    let s1 = endpoint_section(on, "SOURCE"@, flow.source, flow.source_service);
    let k1: int = if t == "SOURCE"@ && flow.source is Some { 1 } else { -1 };
    match flow.source {
        Some(e) => {
            lemma_endpoint_unlike(on, e, flow.source_service);
            lemma_section_found("SOURCE"@, endpoint_lines(on, e, flow.source_service), t);
        },
        None => {},
    }
    assert(found_at(s1, h, k1));
    lemma_found_concat(p0, s1, h, -1, k1);
    // The destination endpoint.
    let s2 = endpoint_section(on, "DESTINATION"@, flow.destination, flow.destination_service);
    let k2: int = if t == "DESTINATION"@ && flow.destination is Some { 1 } else { -1 };
    match flow.destination {
        Some(e) => {
            lemma_endpoint_unlike(on, e, flow.destination_service);
            lemma_section_found(
                "DESTINATION"@,
                endpoint_lines(on, e, flow.destination_service),
                t,
            );
        },
        None => {},
    }
    assert(found_at(s2, h, k2));
    let a2 = p0 + s1;
    let ka2: int = if k1 >= 0 { p0.len() + k1 } else { -1 };
    lemma_found_concat(a2, s2, h, ka2, k2);
    // The addresses.
    let s3 = ip_section(on, flow.ip);
    let k3: int = if t == "IP"@ && flow.ip is Some { 1 } else { -1 };
    match flow.ip {
        Some(ip) => {
            let content = seq![
                "Source IP: "@ + painted(
                    on,
                    ip.source@,
                    Color::Magenta,
                ),
                "Dest IP: "@ + painted(
                    on,
                    ip.destination@,
                    Color::Magenta,
                ),
            ];
            assert(content[0][0] == 'S');
            assert(content[1][0] == 'D');
            assert(all_unlike(content));
            lemma_section_found("IP"@, content, t);
        },
        None => {},
    }
    assert(found_at(s3, h, k3));
    let a3 = a2 + s2;
    let ka3: int = if ka2 >= 0 { ka2 } else if k2 >= 0 { a2.len() + k2 } else { -1 };
    lemma_found_concat(a3, s3, h, ka3, k3);
    // The transport layer.
    let s4 = l4_section(on, flow.ip, flow.l4);
    let k4: int = if t == "LAYER 4"@ && flow.ip is Some && flow.l4 is Some { 1 } else { -1 };
    match (flow.ip, flow.l4) {
        (Some(_), Some(l4)) => {
            lemma_l4_unlike(on, l4);
            lemma_section_found("LAYER 4"@, l4_lines(on, l4), t);
        },
        _ => {},
    }
    assert(found_at(s4, h, k4));
    let a4 = a3 + s3;
    let ka4: int = if ka3 >= 0 { ka3 } else if k3 >= 0 { a3.len() + k3 } else { -1 };
    lemma_found_concat(a4, s4, h, ka4, k4);
    // The application layer.
    let s5 = l7_section(on, flow.l7);
    let k5: int = match flow.l7 {
        Some(l7) => if l7_lines(on, l7).len() != 0 && t == layer7_title(l7_kind(l7.record)) {
            1
        } else {
            -1
        },
        None => -1,
    };
    match flow.l7 {
        Some(l7) => {
            if l7_lines(on, l7).len() != 0 {
                lemma_l7_unlike(on, l7);
                lemma_section_found(layer7_title(l7_kind(l7.record)), l7_lines(on, l7), t);
            } else {
                assert(s5 == seq![Seq::<char>::empty()]);
                assert(all_plain(s5));
                lemma_plain_misses(s5, h);
            }
        },
        None => {},
    }
    assert(found_at(s5, h, k5));
    let a5 = a4 + s4;
    let ka5: int = if ka4 >= 0 { ka4 } else if k4 >= 0 { a4.len() + k4 } else { -1 };
    lemma_found_concat(a5, s5, h, ka5, k5);
    // The action line.
    let s6 = seq![Seq::<char>::empty(), action_line(flow.verdict)];
    lemma_flow_tail_plain(flow.verdict);
    lemma_plain_misses(s6, h);
    let a6 = a5 + s5;
    let ka6: int = if ka5 >= 0 { ka5 } else if k5 >= 0 { a5.len() + k5 } else { -1 };
    lemma_found_concat(a6, s6, h, ka6, -1);
    assert(a6 + s6 == flow_lines(on, flow));
}

/// Among the lines of a flow's rendering, a section's line stands one below where the section
/// stands inside the box, above the action line, and only when the flow has the section.
proof fn lemma_section_rows(on: bool, response: GetFlowsResponse, flow: Flow, t: Seq<char>)
    requires
        response.response_types == Some(ResponseTypes::Flow(flow)),
        flow_lacks(flow, '\n'),
        time_text_plain(flow),
        is_section_title(t),
    ensures
        ({
            let lines = split_lines(rendered(on, response));
            let n = lines.len();
            &&& forall|i: int|
                0 <= i < n ==> (#[trigger] lines[i] == section_line(t) <==> (section_present(
                    on,
                    flow,
                    t,
                ) && i == section_index(on, flow, t) + 1))
            &&& section_present(on, flow, t) ==> 0 < section_index(on, flow, t) + 1 < n - 2
        }),
{
    law_flow_box_lines(on, response, flow);
    let lines = split_lines(rendered(on, response));
    let n = lines.len();
    let content = flow_lines(on, flow);
    let h = section_line(t);
    lemma_section_line_shape(t);
    lemma_sections_in_flow(on, flow, t);
    reveal_strlit("\u{2550}");
    lemma_repeat_lacks("\u{2550}"@, BOX_WIDTH as nat, '\u{2500}');
    assert(box_rule() != h);
    lemma_flow_tail_plain(flow.verdict);
    let last = content.len() - 1;
    assert(content[last] == action_line(flow.verdict));
    lemma_plain_line_unlike(action_line(flow.verdict), h);
    assert forall|i: int| 0 <= i < n implies (#[trigger] lines[i] == h <==> (section_present(
        on,
        flow,
        t,
    ) && i == section_index(on, flow, t) + 1)) by {
        if 1 <= i < n - 1 {
            assert(lines[i] == box_line(content[i - 1]));
        }
    }
}

/// True when one line of `lines` shows the header of the section of that title.
pub open spec fn shows_section(lines: Seq<Seq<char>>, title: Seq<char>) -> bool {
    exists|i: int| 0 <= i < lines.len() && lines[i] == section_line(title)
}

/// True when every line that shows section `a` comes before every line that shows section `b`.
pub open spec fn section_before(lines: Seq<Seq<char>>, a: Seq<char>, b: Seq<char>) -> bool {
    forall|i: int, j: int|
        0 <= i < lines.len() && 0 <= j < lines.len() && lines[i] == section_line(a) && lines[j]
            == section_line(b) ==> i < j
}

/// Split at its newlines, the rendering of a flow whose texts hold no newline shows the header
/// of a section, "─ title ─" followed by spaces, exactly when the flow has that section: SOURCE
/// and DESTINATION with the endpoint, IP with the addresses, LAYER 4 with the addresses and a
/// transport layer, and "LAYER 7 (kind)" for the record's kind when the application layer has
/// lines to show. The sections come in that order, each above the action line.
pub proof fn law_flow_sections(on: bool, response: GetFlowsResponse, flow: Flow)
    requires
        response.response_types == Some(ResponseTypes::Flow(flow)),
        flow_lacks(flow, '\n'),
        time_text_plain(flow),
    ensures
        ({
            let lines = split_lines(rendered(on, response));
            let n = lines.len();
            &&& forall|t: Seq<char>|
                is_section_title(t) ==> #[trigger] section_line(t) == section_header(t)
                    + repeat_seq(" "@, (BOX_WIDTH - byte_len(section_header(t))) as nat)
            &&& n >= 6
            &&& lines[n - 2] == box_line(action_line(flow.verdict))
            &&& shows_section(lines, "SOURCE"@) <==> flow.source is Some
            &&& shows_section(lines, "DESTINATION"@) <==> flow.destination is Some
            &&& shows_section(lines, "IP"@) <==> flow.ip is Some
            &&& shows_section(lines, "LAYER 4"@) <==> (flow.ip is Some && flow.l4 is Some)
            &&& forall|kind: Seq<char>|
                is_l7_kind(kind) ==> (shows_section(lines, #[trigger] layer7_title(kind)) <==> (
                flow.l7 matches Some(l7) && l7_lines(on, l7).len() != 0 && l7_kind(l7.record)
                    == kind))
            &&& forall|t: Seq<char>, i: int|
                is_section_title(t) && 0 <= i < n && #[trigger] lines[i] == #[trigger] section_line(
                    t,
                ) ==> i < n - 2
            &&& section_before(lines, "SOURCE"@, "DESTINATION"@)
            &&& section_before(lines, "DESTINATION"@, "IP"@)
            &&& section_before(lines, "IP"@, "LAYER 4"@)
            &&& forall|kind: Seq<char>|
                is_l7_kind(kind) ==> section_before(lines, "LAYER 4"@, #[trigger] layer7_title(kind))
        }),
{
    reveal_strlit("SOURCE");
    reveal_strlit("DESTINATION");
    reveal_strlit("IP");
    reveal_strlit("LAYER 4");
    reveal_strlit("LAYER 7 (");
    reveal_strlit("HTTP");
    reveal_strlit("DNS");
    reveal_strlit("L7");
    reveal_strlit(")");
    law_flow_box_lines(on, response, flow);
    let lines = split_lines(rendered(on, response));
    let n = lines.len();
    let content = flow_lines(on, flow);
    assert(lines[n - 2] == box_line(content[content.len() - 1]));
    assert forall|t: Seq<char>| is_section_title(t) implies #[trigger] section_line(t)
        == section_header(t) + repeat_seq(
        " "@,
        (BOX_WIDTH - byte_len(section_header(t))) as nat,
    ) by {
        lemma_section_line_shape(t);
    }
    assert forall|t: Seq<char>|
        is_section_title(t) implies (shows_section(lines, t) <==> section_present(on, flow, t)) && (
    forall|i: int| 0 <= i < n && #[trigger] lines[i] == section_line(t) ==> i < n - 2
        && i == section_index(on, flow, t) + 1) by {
        lemma_section_rows(on, response, flow, t);
        if section_present(on, flow, t) {
            let i = section_index(on, flow, t) + 1;
            assert(lines[i] == section_line(t));
        }
    }
    assert(is_section_title("SOURCE"@));
    assert(is_section_title("DESTINATION"@));
    assert(is_section_title("IP"@));
    assert(is_section_title("LAYER 4"@));
    assert forall|kind: Seq<char>| is_l7_kind(kind) implies is_section_title(
        #[trigger] layer7_title(kind),
    ) by {}
    assert forall|t: Seq<char>, i: int|
        is_section_title(t) && 0 <= i < n && #[trigger] lines[i] == #[trigger] section_line(
            t,
        ) implies i < n - 2 by {}
    assert forall|kind: Seq<char>| is_l7_kind(kind) implies (shows_section(
        lines,
        #[trigger] layer7_title(kind),
    ) <==> (flow.l7 matches Some(l7) && l7_lines(on, l7).len() != 0 && l7_kind(l7.record)
        == kind)) by {
        assert(is_section_title(layer7_title(kind)));
    }
    assert forall|kind: Seq<char>| is_l7_kind(kind) implies section_before(
        lines,
        "LAYER 4"@,
        #[trigger] layer7_title(kind),
    ) by {
        assert(is_section_title(layer7_title(kind)));
    }
}

/// True when one of the lines is `text` filled with spaces to the box width.
pub open spec fn shows_line(lines: Seq<Seq<char>>, text: Seq<char>) -> bool {
    exists|i: int|
        0 <= i < lines.len() && lines[i] == text + repeat_seq(
            " "@,
            (BOX_WIDTH - byte_len(text)) as nat,
        )
}

/// The header of a flow's application section names the kind of its record: a flow with an
/// HTTP record shows "─ LAYER 7 (HTTP) ─", one with a DNS record "─ LAYER 7 (DNS) ─", and one
/// with another record or none shows "─ LAYER 7 (L7) ─" when it has a latency to show and no
/// application header otherwise; no other application header shows.
pub proof fn law_l7_section_title(on: bool, response: GetFlowsResponse, flow: Flow, l7: Layer7)
    requires
        response.response_types == Some(ResponseTypes::Flow(flow)),
        flow_lacks(flow, '\n'),
        time_text_plain(flow),
        flow.l7 == Some(l7),
    ensures
        ({
            let lines = split_lines(rendered(on, response));
            let http = "\u{2500} LAYER 7 (HTTP) \u{2500}"@;
            let dns = "\u{2500} LAYER 7 (DNS) \u{2500}"@;
            let other = "\u{2500} LAYER 7 (L7) \u{2500}"@;
            let is_http = l7.record matches Some(Record::Http(_));
            let is_dns = l7.record matches Some(Record::Dns(_));
            &&& shows_line(lines, http) <==> is_http
            &&& shows_line(lines, dns) <==> is_dns
            &&& shows_line(lines, other) <==> (!is_http && !is_dns && l7.latency_ns > 0)
        }),
{
    reveal_strlit("\u{2500} LAYER 7 (HTTP) \u{2500}");
    reveal_strlit("\u{2500} LAYER 7 (DNS) \u{2500}");
    reveal_strlit("\u{2500} LAYER 7 (L7) \u{2500}");
    reveal_strlit("\u{2500} ");
    reveal_strlit(" \u{2500}");
    reveal_strlit("LAYER 7 (");
    reveal_strlit("HTTP");
    reveal_strlit("DNS");
    reveal_strlit("L7");
    reveal_strlit(")");
    law_flow_sections(on, response, flow);
    let lines = split_lines(rendered(on, response));
    assert(is_l7_kind("HTTP"@) && is_l7_kind("DNS"@) && is_l7_kind("L7"@));
    assert(is_section_title(layer7_title("HTTP"@)));
    assert(is_section_title(layer7_title("DNS"@)));
    assert(is_section_title(layer7_title("L7"@)));
    assert(section_header(layer7_title("HTTP"@)) =~= "\u{2500} LAYER 7 (HTTP) \u{2500}"@);
    assert(section_header(layer7_title("DNS"@)) =~= "\u{2500} LAYER 7 (DNS) \u{2500}"@);
    assert(section_header(layer7_title("L7"@)) =~= "\u{2500} LAYER 7 (L7) \u{2500}"@);
    assert forall|kind: Seq<char>| is_l7_kind(kind) implies shows_line(
        lines,
        section_header(#[trigger] layer7_title(kind)),
    ) == shows_section(lines, layer7_title(kind)) by {
        assert(is_section_title(layer7_title(kind)));
        assert(section_line(layer7_title(kind)) == section_header(layer7_title(kind)) + repeat_seq(
            " "@,
            (BOX_WIDTH - byte_len(section_header(layer7_title(kind)))) as nat,
        ));
    }
    match l7.record {
        Some(Record::Http(h)) => {
            assert(http_lines(on, h).len() > 0);
        },
        Some(Record::Dns(d)) => {
            assert(dns_lines(on, d).len() > 0);
        },
        _ => {
            assert(l7_lines(on, l7).len() != 0 <==> l7.latency_ns > 0);
        },
    }
}

} // verus!
