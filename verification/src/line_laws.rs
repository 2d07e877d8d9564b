use vstd::prelude::*;
use crate::flow::{Dns, Http, HttpHeader, Layer4, Protocol, Tcp, TcpFlags};
use crate::formatter::{
    dns_cname_lines, dns_ip_lines, dns_lines, dns_tail_lines, flag_names, http_lines, joined_line,
    l4_lines, painted, truncated, content_width, Color,
};
use crate::text::{decimal, joined, views};
use crate::formatter::header_lines;

verus! {

/// The place of a TCP flag's name in the order SYN, ACK, FIN, RST, PSH; 5 for any other text.
pub open spec fn flag_rank(name: Seq<char>) -> int {
    if name == "SYN"@ {
        0
    } else if name == "ACK"@ {
        1
    } else if name == "FIN"@ {
        2
    } else if name == "RST"@ {
        3
    } else if name == "PSH"@ {
        4
    } else {
        5
    }
}

/// True when the names come in strictly increasing flag order.
pub open spec fn ranks_increase(names: Seq<Seq<char>>) -> bool {
    forall|i: int, j: int|
        0 <= i < j < names.len() ==> flag_rank(#[trigger] names[i]) < flag_rank(#[trigger] names[j])
}

/// True when every name is a flag's name placed before `k`.
pub open spec fn ranks_below(names: Seq<Seq<char>>, k: int) -> bool {
    forall|i: int| 0 <= i < names.len() ==> flag_rank(#[trigger] names[i]) < k
}

proof fn lemma_contains_concat(a: Seq<Seq<char>>, b: Seq<Seq<char>>, x: Seq<char>)
    ensures
        (a + b).contains(x) == (a.contains(x) || b.contains(x)),
{
    if a.contains(x) {
        let i = choose|i: int| 0 <= i < a.len() && a[i] == x;
        assert((a + b)[i] == x);
    }
    if b.contains(x) {
        let i = choose|i: int| 0 <= i < b.len() && b[i] == x;
        assert((a + b)[a.len() + i] == x);
    }
    if (a + b).contains(x) {
        let i = choose|i: int| 0 <= i < (a + b).len() && (a + b)[i] == x;
        if i < a.len() {
            assert(a[i] == x);
        } else {
            assert(b[i - a.len()] == x);
        }
    }
}

/// Appending, when set, the name of the flag placed at `k` keeps the names in order.
proof fn lemma_flag_step(a: Seq<Seq<char>>, b: Seq<Seq<char>>, set: bool, name: Seq<char>, k: int)
    requires
        ranks_increase(a),
        ranks_below(a, k),
        flag_rank(name) == k,
        b == if set { seq![name] } else { Seq::<Seq<char>>::empty() },
    ensures
        ranks_increase(a + b),
        ranks_below(a + b, k + 1),
        (a + b).contains(name) == (a.contains(name) || set),
        forall|x: Seq<char>| x != name ==> #[trigger] (a + b).contains(x) == a.contains(x),
{
    let ab = a + b;
    assert forall|i: int, j: int| 0 <= i < j < ab.len() implies flag_rank(#[trigger] ab[i])
        < flag_rank(#[trigger] ab[j]) by {
        assert(ab[i] == a[i]);
        if j < a.len() {
            assert(ab[j] == a[j]);
        }
    }
    assert forall|i: int| 0 <= i < ab.len() implies flag_rank(#[trigger] ab[i]) < k + 1 by {
        if i < a.len() {
            assert(ab[i] == a[i]);
        }
    }
    lemma_contains_concat(a, b, name);
    if set {
        assert(b[0] == name);
    }
    assert forall|x: Seq<char>| x != name implies #[trigger] (a + b).contains(x) == a.contains(x) by {
        lemma_contains_concat(a, b, x);
        if b.contains(x) {
            let i = choose|i: int| 0 <= i < b.len() && b[i] == x;
            assert(b[i] == name);
        }
    }
}

/// The transport lines of a TCP flow: protocol, ports, then, when any flag is set, a Flags
/// line listing the names of exactly the set flags among SYN, ACK, FIN, RST and PSH, each once,
/// in that order, joined by ", ".
pub proof fn law_tcp_flags_line(on: bool, l4: Layer4, tcp: Tcp, f: TcpFlags)
    requires
        l4.protocol == Some(Protocol::Tcp(tcp)),
        tcp.flags == Some(f),
    ensures
        ({
            let lines = l4_lines(on, l4);
            let names = flag_names(tcp.flags);
            let any = f.syn || f.ack || f.fin || f.rst || f.psh;
            &&& lines.len() == if any { 3int } else { 2int }
            &&& any ==> lines[2] == "Flags: "@ + joined(names, ", "@)
            &&& names.contains("SYN"@) <==> f.syn
            &&& names.contains("ACK"@) <==> f.ack
            &&& names.contains("FIN"@) <==> f.fin
            &&& names.contains("RST"@) <==> f.rst
            &&& names.contains("PSH"@) <==> f.psh
            &&& ranks_increase(names)
            &&& ranks_below(names, 5)
        }),
{
    reveal_strlit("SYN");
    reveal_strlit("ACK");
    reveal_strlit("FIN");
    reveal_strlit("RST");
    reveal_strlit("PSH");
    assert("SYN"@[0] == 'S' && "ACK"@[0] == 'A' && "FIN"@[0] == 'F' && "RST"@[0] == 'R'
        && "PSH"@[0] == 'P');
    assert("ACK"@ != "SYN"@);
    assert("FIN"@ != "SYN"@ && "FIN"@ != "ACK"@);
    assert("RST"@ != "SYN"@ && "RST"@ != "ACK"@ && "RST"@ != "FIN"@);
    assert("PSH"@ != "SYN"@ && "PSH"@ != "ACK"@ && "PSH"@ != "FIN"@ && "PSH"@ != "RST"@);
    assert(flag_rank("SYN"@) == 0);
    assert(flag_rank("ACK"@) == 1);
    assert(flag_rank("FIN"@) == 2);
    assert(flag_rank("RST"@) == 3);
    assert(flag_rank("PSH"@) == 4);
    let e = Seq::<Seq<char>>::empty();
    let s1 = if f.syn { seq!["SYN"@] } else { e };
    let s2 = if f.ack { seq!["ACK"@] } else { e };
    let s3 = if f.fin { seq!["FIN"@] } else { e };
    let s4 = if f.rst { seq!["RST"@] } else { e };
    let s5 = if f.psh { seq!["PSH"@] } else { e };
    lemma_flag_step(e, s1, f.syn, "SYN"@, 0);
    assert(e + s1 =~= s1);
    lemma_flag_step(s1, s2, f.ack, "ACK"@, 1);
    lemma_flag_step(s1 + s2, s3, f.fin, "FIN"@, 2);
    lemma_flag_step(s1 + s2 + s3, s4, f.rst, "RST"@, 3);
    lemma_flag_step(s1 + s2 + s3 + s4, s5, f.psh, "PSH"@, 4);
    let names = flag_names(tcp.flags);
    assert(names == s1 + s2 + s3 + s4 + s5);
    assert(names.len() != 0 <==> (f.syn || f.ack || f.fin || f.rst || f.psh));
}

/// The status that an HTTP exchange shows: the named statuses for 200, 404 and 500, the
/// code's own digits for every other code.
pub open spec fn shown_status(code: u32) -> Seq<char> {
    if code == 200 {
        "200 OK"@
    } else if code == 404 {
        "404 Not Found"@
    } else if code == 500 {
        "500 Internal Server Error"@
    } else {
        decimal(code as nat)
    }
}

/// The first line of an HTTP exchange is the method, the url cut to the content width, an
/// arrow, and the status: "200 OK", "404 Not Found" or "500 Internal Server Error" for those
/// three codes, and for any other code its decimal digits.
pub proof fn law_http_request_line(on: bool, http: Http)
    ensures
        http_lines(on, http).len() >= 1,
        http_lines(on, http)[0] == painted(on, http.method@, Color::Yellow) + " "@ + truncated(
            http.url@,
            content_width(),
        ) + " \u{2192} "@ + shown_status(http.code),
        http.code != 200 && http.code != 404 && http.code != 500 ==> shown_status(http.code)
            == decimal(http.code as nat),
{
}

/// True when `s` begins with `p`.
pub open spec fn begins_with(s: Seq<char>, p: Seq<char>) -> bool {
    p.len() <= s.len() && s.subrange(0, p.len() as int) == p
}

/// The DNS lines hold "CNames:" exactly when the exchange has canonical names; it is followed
/// by one "  - " line per name, in order, the k-th showing the k-th name cut to fit, and the
/// line after them, if any, is not such a line.
pub proof fn law_dns_cname_lines(on: bool, dns: Dns)
    ensures
        ({
            let lines = dns_lines(on, dns);
            let n = dns.cnames@.len() as int;
            &&& n > 0 ==> exists|c: int|
                #![trigger lines[c]]
                0 <= c && c + n < lines.len() && lines[c] == "CNames:"@ && (forall|k: int|
                    0 <= k < n ==> #[trigger] lines[c + 1 + k] == "  - "@ + painted(
                        on,
                        truncated(dns.cnames@[k]@, 66),
                        Color::Cyan,
                    )) && (c + 1 + n == lines.len() || !begins_with(lines[c + 1 + n], "  - "@))
            &&& n == 0 ==> forall|i: int| 0 <= i < lines.len() ==> #[trigger] lines[i] != "CNames:"@
        }),
{
    reveal_strlit("CNames:");
    reveal_strlit("  - ");
    reveal_strlit("Query: ");
    reveal_strlit("QTypes: ");
    reveal_strlit("RRTypes: ");
    reveal_strlit("Response IPs:");
    reveal_strlit("TTL: ");
    reveal_strlit("RCODE: ");
    reveal_strlit("Observation Source: ");
    let lines = dns_lines(on, dns);
    let n = dns.cnames@.len() as int;
    let q = seq![
        "Query: "@ + painted(on, truncated(dns.query@, content_width()), Color::Cyan),
    ];
    let qt = joined_line("QTypes: "@, dns.qtypes@);
    let ips = dns_ip_lines(on, dns);
    let rr = joined_line("RRTypes: "@, dns.rrtypes@);
    let cn = dns_cname_lines(on, dns);
    let tail = dns_tail_lines(dns);
    let head = q + qt + ips + rr;
    assert(lines == head + cn + tail);
    assert(content_width() - 4 == 66);
    // No line outside the canonical names opens with 'C'; the tail opens with no space.
    assert forall|i: int| 0 <= i < head.len() implies #[trigger] head[i][0] != 'C' && head[i].len()
        > 0 by {
        if i < 1 {
        } else if i < 1 + qt.len() {
            assert(head[i] == qt[i - 1]);
        } else if i < 1 + qt.len() + ips.len() {
            assert(head[i] == ips[i - 1 - qt.len()]);
        } else {
            assert(head[i] == rr[i - 1 - qt.len() - ips.len()]);
        }
    }
    assert forall|i: int| 0 <= i < tail.len() implies #[trigger] tail[i][0] != 'C' && tail[i][0]
        != ' ' && tail[i].len() > 0 by {}
    if n > 0 {
        let c = head.len() as int;
        assert(lines[c] == cn[0]);
        assert(cn[0] == "CNames:"@);
        assert forall|k: int| 0 <= k < n implies #[trigger] lines[c + 1 + k] == "  - "@ + painted(
            on,
            truncated(dns.cnames@[k]@, 66),
            Color::Cyan,
        ) by {
            assert(lines[c + 1 + k] == cn[1 + k]);
            assert(views(dns.cnames@)[k] == dns.cnames@[k]@);
        }
        if c + 1 + n < lines.len() {
            let t = lines[c + 1 + n];
            assert(t == tail[0]);
            if begins_with(t, "  - "@) {
                assert(t.subrange(0, 4)[0] == t[0]);
            }
        }
        assert(lines[c] == "CNames:"@);
    } else {
        assert(cn.len() == 0);
        assert("CNames:"@[0] == 'C');
        assert forall|i: int| 0 <= i < lines.len() implies #[trigger] lines[i] != "CNames:"@ by {
            if i < head.len() {
                assert(lines[i] == head[i]);
            } else {
                assert(lines[i] == tail[i - head.len()]);
            }
        }
    }
}

/// True when a header has both a key and a value to show.
pub open spec fn header_shown(h: HttpHeader) -> bool {
    h.key@.len() != 0 && h.value@.len() != 0
}

/// The line of a header: two spaces, the key, ": " and the value, key and value each cut to
/// half the content width.
pub open spec fn shown_header(h: HttpHeader) -> Seq<char> {
    "  "@ + truncated(h.key@, 35) + ": "@ + truncated(h.value@, 35)
}

/// The header lines of an HTTP exchange: one per header that has both a key and a value, in
/// the order of the headers; headers missing either are left out.
pub proof fn law_http_header_lines(hs: Seq<HttpHeader>)
    ensures
        header_lines(hs) == hs.filter(|h: HttpHeader| header_shown(h)).map_values(
            |h: HttpHeader| shown_header(h),
        ),
    decreases hs.len(),
{
    let p = |h: HttpHeader| header_shown(h);
    let f = |h: HttpHeader| shown_header(h);
    reveal(Seq::filter);
    assert(content_width() / 2 == 35);
    if hs.len() == 0 {
        assert(hs.filter(p) =~= Seq::<HttpHeader>::empty());
        assert(header_lines(hs) =~= hs.filter(p).map_values(f));
    } else {
        law_http_header_lines(hs.drop_last());
        let sub = hs.drop_last().filter(p);
        if p(hs.last()) {
            assert(hs.filter(p) == sub.push(hs.last()));
            assert(sub.push(hs.last()).map_values(f) =~= sub.map_values(f) + seq![f(hs.last())]);
        } else {
            assert(hs.filter(p) == sub);
        }
        assert(header_lines(hs) =~= hs.filter(p).map_values(f));
    }
}

/// The lines of an HTTP exchange: the request line, then, when it has headers, "Headers:" and
/// the header lines.
pub proof fn law_http_lines(on: bool, http: Http)
    ensures
        http.headers@.len() == 0 ==> http_lines(on, http).len() == 1,
        http.headers@.len() != 0 ==> http_lines(on, http) == seq![http_lines(on, http)[0]]
            + seq!["Headers:"@] + http.headers@.filter(|h: HttpHeader| header_shown(h)).map_values(
            |h: HttpHeader| shown_header(h),
        ),
{
    law_http_header_lines(http.headers@);
    let lines = http_lines(on, http);
    if http.headers@.len() != 0 {
        assert(lines =~= seq![lines[0]] + seq!["Headers:"@] + header_lines(http.headers@));
    }
}

/// The DNS lines: "Query: " and the query painted cyan and cut to the content width; when it
/// has query types, "QTypes: " and their names joined by ", " and cut; then, when it has
/// resolved addresses, "Response IPs:" followed by one "  - " line per address, in order,
/// painted magenta, and no further such line; "Response IPs:" shows only then.
pub proof fn law_dns_query_and_addresses(on: bool, dns: Dns)
    ensures
        ({
            let lines = dns_lines(on, dns);
            let n = dns.ips@.len() as int;
            &&& lines.len() >= 1
            &&& lines[0] == "Query: "@ + painted(on, truncated(dns.query@, 70), Color::Cyan)
            &&& dns.qtypes@.len() != 0 ==> lines[1] == "QTypes: "@ + truncated(
                joined(views(dns.qtypes@), ", "@),
                70,
            )
            &&& n > 0 ==> exists|c: int|
                #![trigger lines[c]]
                0 <= c && c + n < lines.len() && lines[c] == "Response IPs:"@ && (forall|k: int|
                    0 <= k < n ==> #[trigger] lines[c + 1 + k] == "  - "@ + painted(
                        on,
                        dns.ips@[k]@,
                        Color::Magenta,
                    )) && (c + 1 + n == lines.len() || !begins_with(lines[c + 1 + n], "  - "@))
            &&& n == 0 ==> forall|i: int|
                0 <= i < lines.len() ==> #[trigger] lines[i] != "Response IPs:"@
        }),
{
    reveal_strlit("CNames:");
    reveal_strlit("  - ");
    reveal_strlit("Query: ");
    reveal_strlit("QTypes: ");
    reveal_strlit("RRTypes: ");
    reveal_strlit("Response IPs:");
    reveal_strlit("TTL: ");
    reveal_strlit("RCODE: ");
    reveal_strlit("Observation Source: ");
    let lines = dns_lines(on, dns);
    let n = dns.ips@.len() as int;
    let q = seq![
        "Query: "@ + painted(on, truncated(dns.query@, content_width()), Color::Cyan),
    ];
    let qt = joined_line("QTypes: "@, dns.qtypes@);
    let ips = dns_ip_lines(on, dns);
    let rr = joined_line("RRTypes: "@, dns.rrtypes@);
    let cn = dns_cname_lines(on, dns);
    let tail = dns_tail_lines(dns);
    let head = q + qt;
    let rest = rr + cn + tail;
    assert(lines == head + ips + rest);
    assert(content_width() == 70);
    assert(lines[0] == q[0]);
    if dns.qtypes@.len() != 0 {
        assert(lines[1] == qt[0]);
    }
    // Lines outside the addresses: none opens with a space, none is "Response IPs:".
    assert forall|i: int| 0 <= i < head.len() implies #[trigger] head[i].len() > 1 && (head[i][0]
        != 'R' || head[i][1] != 'e') by {
        if i >= 1 {
            assert(head[i] == qt[i - 1]);
        }
    }
    assert forall|i: int| 0 <= i < rest.len() implies #[trigger] rest[i].len() > 1 && (rest[i][0]
        != 'R' || rest[i][1] != 'e') && (i == 0 ==> rest[i][0] != ' ') by {
        if i < rr.len() {
            assert(rest[i] == rr[i]);
        } else if i < rr.len() + cn.len() {
            assert(rest[i] == cn[i - rr.len()]);
        } else {
            assert(rest[i] == tail[i - rr.len() - cn.len()]);
        }
    }
    assert("Response IPs:"@[0] == 'R' && "Response IPs:"@[1] == 'e');
    if n > 0 {
        let c = head.len() as int;
        assert(lines[c] == ips[0]);
        assert forall|k: int| 0 <= k < n implies #[trigger] lines[c + 1 + k] == "  - "@ + painted(
            on,
            dns.ips@[k]@,
            Color::Magenta,
        ) by {
            assert(lines[c + 1 + k] == ips[1 + k]);
            assert(views(dns.ips@)[k] == dns.ips@[k]@);
        }
        if c + 1 + n < lines.len() {
            let t = lines[c + 1 + n];
            assert(t == rest[0]);
            if begins_with(t, "  - "@) {
                assert(t.subrange(0, 4)[0] == t[0]);
            }
        }
        assert(lines[c] == "Response IPs:"@);
    } else {
        assert(ips.len() == 0);
        assert forall|i: int| 0 <= i < lines.len() implies #[trigger] lines[i] != "Response IPs:"@ by {
            if i < head.len() {
                assert(lines[i] == head[i]);
            } else {
                assert(lines[i] == rest[i - head.len()]);
            }
        }
    }
}

/// The DNS lines end with: "TTL: " and the TTL and "s" when it is positive, "RCODE: " and the
/// response code when it is positive, and "Observation Source: " and the source, cut, when
/// there is one; the RRTypes line, when there are answer types, comes right after the
/// addresses.
pub proof fn law_dns_tail(on: bool, dns: Dns)
    ensures
        ({
            let lines = dns_lines(on, dns);
            let tail = (if dns.ttl > 0 {
                seq!["TTL: "@ + decimal(dns.ttl as nat) + "s"@]
            } else {
                Seq::<Seq<char>>::empty()
            }) + (if dns.rcode > 0 {
                seq!["RCODE: "@ + decimal(dns.rcode as nat)]
            } else {
                Seq::<Seq<char>>::empty()
            }) + (if dns.observation_source@.len() != 0 {
                seq!["Observation Source: "@ + truncated(dns.observation_source@, 70)]
            } else {
                Seq::<Seq<char>>::empty()
            });
            &&& tail.len() <= lines.len()
            &&& lines.subrange(lines.len() - tail.len(), lines.len() as int) == tail
            &&& dns.rrtypes@.len() != 0 ==> lines[1int + joined_line("QTypes: "@, dns.qtypes@).len()
                + dns_ip_lines(on, dns).len()] == "RRTypes: "@ + truncated(
                joined(views(dns.rrtypes@), ", "@),
                70,
            )
        }),
{
    let lines = dns_lines(on, dns);
    let q = seq![
        "Query: "@ + painted(on, truncated(dns.query@, content_width()), Color::Cyan),
    ];
    let qt = joined_line("QTypes: "@, dns.qtypes@);
    let ips = dns_ip_lines(on, dns);
    let rr = joined_line("RRTypes: "@, dns.rrtypes@);
    let cn = dns_cname_lines(on, dns);
    let tail = dns_tail_lines(dns);
    let front = q + qt + ips + rr + cn;
    assert(lines == front + tail);
    assert(content_width() == 70);
    assert(lines.subrange(lines.len() - tail.len(), lines.len() as int) =~= tail);
    if dns.rrtypes@.len() != 0 {
        assert(lines[1int + qt.len() + ips.len()] == rr[0]);
    }
}

} // verus!
