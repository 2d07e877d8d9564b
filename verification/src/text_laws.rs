use vstd::prelude::*;
use crate::flow::{Endpoint, Flow, Ip, Layer4, Layer7, Protocol, Service};
use crate::formatter::{
    box_rule, ellipsis, action_line, bg_code, content_width, drop_reason_text, endpoint_lines, fg_code,
    flow_header_lines, flow_type_text, ip_section, l4_lines, l7_lines, painted, painted_bg,
    section_header, timestamp_text, truncated, verdict_headline, verdict_style, Color, BOX_WIDTH,
};
use crate::text::{byte_len, decimal, lemma_decimal_ascii, repeat_seq, signed_decimal};
use crate::laws::lemma_len_le_byte_len;
use crate::stats_formatter::{
    count_column, dest_column, max_count_len, max_dest_len, max_source_len, source_column,
    table_row, StatRow,
};
use crate::flow::{GetFlowsResponse, ResponseTypes};
use crate::flow_filter::passes;

verus! {

/// The digit that numbers a colour in ANSI codes: 0 to 7 for the eight named colours, 9 (the
/// default colour) for any other.
pub open spec fn color_digit(c: Color) -> char {
    match c {
        Color::Black => '0',
        Color::Red => '1',
        Color::Green => '2',
        Color::Yellow => '3',
        Color::Blue => '4',
        Color::Magenta => '5',
        Color::Cyan => '6',
        Color::White => '7',
        _ => '9',
    }
}

/// A foreground code is '3' and the colour's digit, a background code '4' and the same digit;
/// painting with colours off leaves the text alone, and with colours on wraps it in "ESC [",
/// the codes (background first, then foreground, separated by ';'), 'm', and the reset
/// "ESC [0m".
pub proof fn law_color_codes(s: Seq<char>, c: Color, bg: Color)
    ensures
        fg_code(c) == seq!['3', color_digit(c)],
        bg_code(c) == seq!['4', color_digit(c)],
        painted(false, s, c) == s,
        painted(true, s, c) == seq!['\x1b', '[', '3', color_digit(c), 'm'] + s + seq![
            '\x1b',
            '[',
            '0',
            'm',
        ],
        painted_bg(false, s, bg, c) == s,
        painted_bg(true, s, bg, c) == seq![
            '\x1b',
            '[',
            '4',
            color_digit(bg),
            ';',
            '3',
            color_digit(c),
            'm',
        ] + s + seq!['\x1b', '[', '0', 'm'],
{
    reveal_strlit("30");
    reveal_strlit("31");
    reveal_strlit("32");
    reveal_strlit("33");
    reveal_strlit("34");
    reveal_strlit("35");
    reveal_strlit("36");
    reveal_strlit("37");
    reveal_strlit("39");
    reveal_strlit("40");
    reveal_strlit("41");
    reveal_strlit("42");
    reveal_strlit("43");
    reveal_strlit("44");
    reveal_strlit("45");
    reveal_strlit("46");
    reveal_strlit("47");
    reveal_strlit("49");
    reveal_strlit("\x1b[");
    reveal_strlit("m");
    reveal_strlit(";");
    reveal_strlit("\x1b[0m");
    assert(fg_code(c) =~= seq!['3', color_digit(c)]);
    assert(bg_code(c) =~= seq!['4', color_digit(c)]);
    assert(bg_code(bg) =~= seq!['4', color_digit(bg)]);
    assert(painted(true, s, c) =~= seq!['\x1b', '[', '3', color_digit(c), 'm'] + s + seq![
        '\x1b',
        '[',
        '0',
        'm',
    ]);
    assert(painted_bg(true, s, bg, c) =~= seq![
        '\x1b',
        '[',
        '4',
        color_digit(bg),
        ';',
        '3',
        color_digit(c),
        'm',
    ] + s + seq!['\x1b', '[', '0', 'm']);
}

/// The names of the drop reasons that Cilium reports, by code; other codes read
/// "Drop reason: <code>".
pub proof fn law_drop_reason_names(reason: i32)
    ensures
        reason == 0 ==> drop_reason_text(reason) == "Unknown"@,
        reason == 130 ==> drop_reason_text(reason) == "Invalid source MAC"@,
        reason == 131 ==> drop_reason_text(reason) == "Invalid destination MAC"@,
        reason == 132 ==> drop_reason_text(reason) == "Invalid source IP"@,
        reason == 133 ==> drop_reason_text(reason) == "Policy denied"@,
        reason == 134 ==> drop_reason_text(reason) == "Invalid packet dropped"@,
        reason == 135 ==> drop_reason_text(reason) == "CT truncated or invalid header"@,
        reason == 136 ==> drop_reason_text(reason) == "CT missing TCP ACK flag"@,
        reason == 137 ==> drop_reason_text(reason) == "CT unknown L4 protocol"@,
        reason == 138 ==> drop_reason_text(reason) == "CT cannot create entry"@,
        reason == 139 ==> drop_reason_text(reason) == "Unsupported L3 protocol"@,
        reason == 140 ==> drop_reason_text(reason) == "Missed tail call"@,
        reason == 141 ==> drop_reason_text(reason) == "Error writing to packet"@,
        reason == 142 ==> drop_reason_text(reason) == "Unknown L4 protocol"@,
        reason == 143 ==> drop_reason_text(reason) == "Unknown ICMPv4 code"@,
        reason == 144 ==> drop_reason_text(reason) == "Unknown ICMPv4 type"@,
        reason == 145 ==> drop_reason_text(reason) == "Unknown ICMPv6 code"@,
        reason == 146 ==> drop_reason_text(reason) == "Unknown ICMPv6 type"@,
        reason == 181 ==> drop_reason_text(reason) == "Policy deny"@,
        !(reason == 0 || 130 <= reason <= 146 || reason == 181) ==> drop_reason_text(reason)
            == "Drop reason: "@ + signed_decimal(reason as int),
{
}

/// How a verdict shows: a dropped flow (code 2) as "🚨 DROPPED" on red with white text, a
/// forwarded one (code 1) as "✅ FORWARDED" on green with black text, any other as
/// "⚠️ UNKNOWN" on yellow with black text; the headline adds " - " and the drop reason's
/// name when the reason code is not zero, and the action line is "Action: " and the same
/// marker and word.
pub proof fn law_verdict_text(verdict: i32, reason: i32)
    ensures
        ({
            let (mark, word) = if verdict == 2 {
                ("\u{1f6a8}"@, "DROPPED"@)
            } else if verdict == 1 {
                ("\u{2705}"@, "FORWARDED"@)
            } else {
                ("\u{26a0}\u{fe0f}"@, "UNKNOWN"@)
            };
            &&& verdict_headline(verdict, reason) == mark + " "@ + word + if reason != 0 {
                " - "@ + drop_reason_text(reason)
            } else {
                Seq::empty()
            }
            &&& action_line(verdict) == "Action: "@ + mark + " "@ + word
            &&& verdict == 2 ==> verdict_style(verdict).2 == Color::Red && verdict_style(verdict).3
                == Color::White
            &&& verdict == 1 ==> verdict_style(verdict).2 == Color::Green
                && verdict_style(verdict).3 == Color::Black
            &&& verdict != 1 && verdict != 2 ==> verdict_style(verdict).2 == Color::Yellow
                && verdict_style(verdict).3 == Color::Black
        }),
{
}

/// The lines that open a flow's box: "Time: " and the date when the flow has a time, "Node: "
/// and the node when it has one, "Direction: " and Ingress (code 1), Egress (code 2) or
/// Unknown, and "Type: " and the flow type's name (UNKNOWN, L3_L4, L7, SOCK for codes 0 to 3,
/// "UNKNOWN(<code>)" otherwise) painted yellow.
pub proof fn law_flow_header_lines(on: bool, flow: Flow)
    ensures
        ({
            let direction = if flow.traffic_direction == 1 {
                "Ingress"@
            } else if flow.traffic_direction == 2 {
                "Egress"@
            } else {
                "Unknown"@
            };
            let kind = if flow.flow_type == 0 {
                "UNKNOWN"@
            } else if flow.flow_type == 1 {
                "L3_L4"@
            } else if flow.flow_type == 2 {
                "L7"@
            } else if flow.flow_type == 3 {
                "SOCK"@
            } else {
                "UNKNOWN("@ + signed_decimal(flow.flow_type as int) + ")"@
            };
            let time = match flow.time {
                Some(t) => seq!["Time: "@ + timestamp_text(t.seconds, t.nanos)],
                None => Seq::<Seq<char>>::empty(),
            };
            let node = if flow.node_name@.len() != 0 {
                seq!["Node: "@ + flow.node_name@]
            } else {
                Seq::<Seq<char>>::empty()
            };
            &&& flow_type_text(flow.flow_type) == kind
            &&& flow_header_lines(on, flow) == time + node + seq![
                "Direction: "@ + direction,
                "Type: "@ + painted(on, kind, Color::Yellow),
            ]
        }),
{
}

/// The lines of an endpoint: "Pod: " and, painted cyan and cut to the content width,
/// "namespace/pod" (or the bare pod without a namespace, or "Unknown" without a pod); then
/// "Service: " and the service's name, cut, when it has a non-empty one.
pub proof fn law_endpoint_lines(on: bool, ep: Endpoint, service: Option<Service>)
    ensures
        ({
            let shown = if ep.pod_name@.len() == 0 {
                "Unknown"@
            } else if ep.namespace@.len() != 0 {
                ep.namespace@ + "/"@ + ep.pod_name@
            } else {
                ep.pod_name@
            };
            let pod = "Pod: "@ + painted(on, truncated(shown, content_width()), Color::Cyan);
            &&& content_width() == 70
            &&& endpoint_lines(on, ep, service) == match service {
                Some(s) => if s.name@.len() != 0 {
                    seq![pod, "Service: "@ + truncated(s.name@, 70)]
                } else {
                    seq![pod]
                },
                None => seq![pod],
            }
        }),
{
}

/// The section of a flow's addresses: a blank line, the "IP" header, then the source address
/// and the destination address, in that order, painted magenta.
pub proof fn law_ip_section(on: bool, ip: Ip)
    ensures
        ip_section(on, Some(ip)) == seq![
            Seq::<char>::empty(),
            section_header("IP"@),
            truncated(
                "Source IP: "@ + painted(on, ip.source@, Color::Magenta),
                (BOX_WIDTH - 2) as nat,
            ),
            truncated(
                "Dest IP: "@ + painted(on, ip.destination@, Color::Magenta),
                (BOX_WIDTH - 2) as nat,
            ),
        ],
        ip_section(on, None) == Seq::<Seq<char>>::empty(),
{
    let content = seq![
        "Source IP: "@ + painted(on, ip.source@, Color::Magenta),
        "Dest IP: "@ + painted(on, ip.destination@, Color::Magenta),
    ];
    assert(ip_section(on, Some(ip)) =~= seq![
        Seq::<char>::empty(),
        section_header("IP"@),
        truncated(content[0], (BOX_WIDTH - 2) as nat),
        truncated(content[1], (BOX_WIDTH - 2) as nat),
    ]);
}

/// The transport lines: for TCP and UDP, "Protocol: " and the protocol's name painted blue,
/// then "Ports: ", the source port, an arrow and the destination port, both painted yellow
/// (then, for TCP, the Flags line); nothing for another or no protocol.
pub proof fn law_transport_lines(on: bool, l4: Layer4)
    ensures
        match l4.protocol {
            Some(Protocol::Tcp(t)) => {
                &&& l4_lines(on, l4).len() >= 2
                &&& l4_lines(on, l4)[0] == "Protocol: "@ + painted(on, "TCP"@, Color::Blue)
                &&& l4_lines(on, l4)[1] == "Ports: "@ + painted(
                    on,
                    decimal(t.source_port as nat),
                    Color::Yellow,
                ) + " \u{2192} "@ + painted(on, decimal(t.destination_port as nat), Color::Yellow)
            },
            Some(Protocol::Udp(u)) => l4_lines(on, l4) == seq![
                "Protocol: "@ + painted(on, "UDP"@, Color::Blue),
                "Ports: "@ + painted(on, decimal(u.source_port as nat), Color::Yellow)
                    + " \u{2192} "@ + painted(on, decimal(u.destination_port as nat), Color::Yellow),
            ],
            _ => l4_lines(on, l4).len() == 0,
        },
{
    match l4.protocol {
        Some(Protocol::Udp(u)) => {
            assert(l4_lines(on, l4) =~= seq![
                "Protocol: "@ + painted(on, "UDP"@, Color::Blue),
                "Ports: "@ + painted(on, decimal(u.source_port as nat), Color::Yellow)
                    + " \u{2192} "@ + painted(on, decimal(u.destination_port as nat), Color::Yellow),
            ]);
        },
        _ => {},
    }
}

/// The application lines end with "Latency: ", the latency in whole milliseconds and "ms"
/// when the latency is positive, and have no latency line otherwise.
pub proof fn law_latency_line(on: bool, l7: Layer7)
    ensures
        l7.latency_ns > 0 ==> l7_lines(on, l7).len() >= 1 && l7_lines(on, l7).last() == "Latency: "@
            + decimal((l7.latency_ns / 1_000_000) as nat) + "ms"@,
        l7.latency_ns == 0 && l7.record is None ==> l7_lines(on, l7).len() == 0,
{
}

/// The widest count in digits: at least every row's, and one of them unless there are none.
proof fn lemma_max_count(rows: Seq<StatRow>)
    ensures
        forall|i: int|
            0 <= i < rows.len() ==> byte_len(decimal(#[trigger] rows[i].2 as nat)) <= max_count_len(
                rows,
            ),
        max_count_len(rows) == 0 || exists|i: int|
            0 <= i < rows.len() && max_count_len(rows) == byte_len(decimal(#[trigger] rows[i].2 as nat)),
    decreases rows.len(),
{
    if rows.len() > 0 {
        let init = rows.drop_last();
        lemma_max_count(init);
        assert forall|i: int| 0 <= i < rows.len() implies byte_len(decimal(#[trigger] rows[i].2 as nat))
            <= max_count_len(rows) by {
            if i < init.len() {
                assert(rows[i] == init[i]);
            }
        }
        if max_count_len(rows) != byte_len(decimal(rows.last().2 as nat)) {
            let i = choose|i: int|
                0 <= i < init.len() && max_count_len(init) == byte_len(decimal(#[trigger] init[i].2 as nat));
            assert(rows[i] == init[i]);
        }
    }
}

proof fn lemma_max_source(rows: Seq<StatRow>)
    ensures
        forall|i: int| 0 <= i < rows.len() ==> byte_len(#[trigger] rows[i].0@) <= max_source_len(rows),
        max_source_len(rows) == 0 || exists|i: int|
            0 <= i < rows.len() && max_source_len(rows) == byte_len(#[trigger] rows[i].0@),
    decreases rows.len(),
{
    if rows.len() > 0 {
        let init = rows.drop_last();
        lemma_max_source(init);
        assert forall|i: int| 0 <= i < rows.len() implies byte_len(#[trigger] rows[i].0@)
            <= max_source_len(rows) by {
            if i < init.len() {
                assert(rows[i] == init[i]);
            }
        }
        if max_source_len(rows) != byte_len(rows.last().0@) {
            let i = choose|i: int|
                0 <= i < init.len() && max_source_len(init) == byte_len(#[trigger] init[i].0@);
            assert(rows[i] == init[i]);
        }
    }
}

proof fn lemma_max_dest(rows: Seq<StatRow>)
    ensures
        forall|i: int| 0 <= i < rows.len() ==> byte_len(#[trigger] rows[i].1@) <= max_dest_len(rows),
        max_dest_len(rows) == 0 || exists|i: int|
            0 <= i < rows.len() && max_dest_len(rows) == byte_len(#[trigger] rows[i].1@),
    decreases rows.len(),
{
    if rows.len() > 0 {
        let init = rows.drop_last();
        lemma_max_dest(init);
        assert forall|i: int| 0 <= i < rows.len() implies byte_len(#[trigger] rows[i].1@)
            <= max_dest_len(rows) by {
            if i < init.len() {
                assert(rows[i] == init[i]);
            }
        }
        if max_dest_len(rows) != byte_len(rows.last().1@) {
            let i = choose|i: int|
                0 <= i < init.len() && max_dest_len(init) == byte_len(#[trigger] init[i].1@);
            assert(rows[i] == init[i]);
        }
    }
}

/// The columns of the statistics table: the count column is as wide as "Count" or the widest
/// count, whichever is wider; the source column as "Source IP" or the widest source address;
/// the destination column as "Dest IP" or the widest destination address (widths in UTF-8
/// bytes). Each entry's row is "| ", the count right-aligned, " | ", the source and " | ",
/// the destination, each left-aligned, and " |"; the header row likewise holds the labels.
pub proof fn law_stats_columns(rows: Seq<StatRow>)
    ensures
        ({
            let cw = count_column(rows);
            let sw = source_column(rows);
            let dw = dest_column(rows);
            &&& cw >= 5 && sw >= 9 && dw >= 7
            &&& forall|i: int|
                0 <= i < rows.len() ==> byte_len(decimal(#[trigger] rows[i].2 as nat)) <= cw
                    && byte_len(rows[i].0@) <= sw && byte_len(rows[i].1@) <= dw
            &&& cw == 5 || exists|i: int|
                0 <= i < rows.len() && cw == byte_len(decimal(#[trigger] rows[i].2 as nat))
            &&& sw == 9 || exists|i: int| 0 <= i < rows.len() && sw == byte_len(#[trigger] rows[i].0@)
            &&& dw == 7 || exists|i: int| 0 <= i < rows.len() && dw == byte_len(#[trigger] rows[i].1@)
            &&& forall|i: int|
                0 <= i < rows.len() ==> {
                    let d = decimal(#[trigger] rows[i].2 as nat);
                    let src = rows[i].0@;
                    let dst = rows[i].1@;
                    table_row(d, src, dst, cw, sw, dw) == "| "@ + repeat_seq(
                        " "@,
                        (cw - d.len()) as nat,
                    ) + d + " | "@ + src + repeat_seq(" "@, (sw - src.len()) as nat) + " | "@ + dst
                        + repeat_seq(" "@, (dw - dst.len()) as nat) + " |"@
                }
            &&& table_row("Count"@, "Source IP"@, "Dest IP"@, cw, sw, dw) == "| "@ + repeat_seq(
                " "@,
                (cw - 5) as nat,
            ) + "Count"@ + " | "@ + "Source IP"@ + repeat_seq(" "@, (sw - 9) as nat) + " | "@
                + "Dest IP"@ + repeat_seq(" "@, (dw - 7) as nat) + " |"@
        }),
{
    reveal_strlit("Count");
    reveal_strlit("Source IP");
    reveal_strlit("Dest IP");
    lemma_max_count(rows);
    lemma_max_source(rows);
    lemma_max_dest(rows);
    let cw = count_column(rows);
    let sw = source_column(rows);
    let dw = dest_column(rows);
    assert forall|i: int| 0 <= i < rows.len() implies {
        let d = decimal(#[trigger] rows[i].2 as nat);
        let src = rows[i].0@;
        let dst = rows[i].1@;
        table_row(d, src, dst, cw, sw, dw) == "| "@ + repeat_seq(" "@, (cw - d.len()) as nat) + d
            + " | "@ + src + repeat_seq(" "@, (sw - src.len()) as nat) + " | "@ + dst + repeat_seq(
            " "@,
            (dw - dst.len()) as nat,
        ) + " |"@
    } by {
        let d = decimal(rows[i].2 as nat);
        lemma_decimal_ascii(rows[i].2 as nat);
        vstd::utf8::is_ascii_chars_encode_utf8(d);
        lemma_len_le_byte_len(rows[i].0@);
        lemma_len_le_byte_len(rows[i].1@);
        lemma_row_shape(d, rows[i].0@, rows[i].1@, cw, sw, dw);
    }
    lemma_row_shape("Count"@, "Source IP"@, "Dest IP"@, cw, sw, dw);
}

/// A row whose texts fit their columns is each text filled with spaces on the proper side.
proof fn lemma_row_shape(d: Seq<char>, src: Seq<char>, dst: Seq<char>, cw: nat, sw: nat, dw: nat)
    requires
        d.len() <= cw,
        src.len() <= sw,
        dst.len() <= dw,
    ensures
        table_row(d, src, dst, cw, sw, dw) == "| "@ + repeat_seq(" "@, (cw - d.len()) as nat) + d
            + " | "@ + src + repeat_seq(" "@, (sw - src.len()) as nat) + " | "@ + dst + repeat_seq(
            " "@,
            (dw - dst.len()) as nat,
        ) + " |"@,
{
    assert(repeat_seq(" "@, 0) =~= Seq::<char>::empty());
    assert(Seq::<char>::empty() + d =~= d);
    assert(src + Seq::<char>::empty() =~= src);
    assert(dst + Seq::<char>::empty() =~= dst);
}

/// The console filter: a message is hidden exactly when only traffic that leaves or enters the
/// cluster is wanted and it is a flow whose source and destination addresses both begin with
/// the cluster's prefix "10.42.".
pub proof fn law_world_filter(world_only: bool, response: GetFlowsResponse)
    ensures
        passes(world_only, response) == match response.response_types {
            Some(ResponseTypes::Flow(flow)) => match flow.ip {
                Some(ip) => !(world_only && ip.source@.len() >= 6 && ip.source@.subrange(0, 6)
                    == "10.42."@ && ip.destination@.len() >= 6 && ip.destination@.subrange(0, 6)
                    == "10.42."@),
                None => true,
            },
            _ => true,
        },
{
    reveal_strlit("10.42.");
}

/// A box opens and closes with a rule of eighty double horizontal bars, and a cut text ends
/// with three dots.
pub proof fn law_rule_and_ellipsis()
    ensures
        BOX_WIDTH == 80,
        box_rule().len() == 80,
        forall|i: int| 0 <= i < 80 ==> #[trigger] box_rule()[i] == '\u{2550}',
        ellipsis() == "..."@,
{
    reveal_strlit("\u{2550}");
    reveal_strlit("...");
    assert(ellipsis() =~= "..."@);
    lemma_rule_chars(80);
}

proof fn lemma_rule_chars(n: nat)
    ensures
        repeat_seq("\u{2550}"@, n).len() == n,
        forall|i: int| 0 <= i < n ==> #[trigger] repeat_seq("\u{2550}"@, n)[i] == '\u{2550}',
    decreases n,
{
    reveal_strlit("\u{2550}");
    if n > 0 {
        lemma_rule_chars((n - 1) as nat);
        let prev = repeat_seq("\u{2550}"@, (n - 1) as nat);
        assert forall|i: int| 0 <= i < n implies #[trigger] repeat_seq("\u{2550}"@, n)[i]
            == '\u{2550}' by {
            if i < n - 1 {
                assert(repeat_seq("\u{2550}"@, n)[i] == prev[i]);
            }
        }
    }
}

} // verus!
