use vstd::prelude::*;
use crate::text::{
    byte_len, decimal, format_u64, join_strings, joined, lemma_decimal_u64_bytes, repeat_seq, repeat_str,
    views,
};

verus! {

/// One row of collected statistics: source address, destination address and flow count.
pub type StatRow = (String, String, u64);

pub open spec fn max_nat(a: nat, b: nat) -> nat {
    if a >= b {
        a
    } else {
        b
    }
}

/// The widest count of the rows, in decimal digits.
pub open spec fn max_count_len(rows: Seq<StatRow>) -> nat
    decreases rows.len(),
{
    if rows.len() == 0 {
        0
    } else {
        max_nat(max_count_len(rows.drop_last()), byte_len(decimal(rows.last().2 as nat)))
    }
}

/// The widest source address of the rows, in UTF-8 bytes.
pub open spec fn max_source_len(rows: Seq<StatRow>) -> nat
    decreases rows.len(),
{
    if rows.len() == 0 {
        0
    } else {
        max_nat(max_source_len(rows.drop_last()), byte_len(rows.last().0@))
    }
}

/// The widest destination address of the rows, in UTF-8 bytes.
pub open spec fn max_dest_len(rows: Seq<StatRow>) -> nat
    decreases rows.len(),
{
    if rows.len() == 0 {
        0
    } else {
        max_nat(max_dest_len(rows.drop_last()), byte_len(rows.last().1@))
    }
}

/// The width of the count column: its label's or the widest count's.
pub open spec fn count_column(rows: Seq<StatRow>) -> nat {
    max_nat(5, max_count_len(rows))
}

/// The width of the source column: its label's or the widest source address's.
pub open spec fn source_column(rows: Seq<StatRow>) -> nat {
    max_nat(9, max_source_len(rows))
}

/// The width of the destination column: its label's or the widest destination address's.
pub open spec fn dest_column(rows: Seq<StatRow>) -> nat {
    max_nat(7, max_dest_len(rows))
}

/// A text right-aligned in `width` characters.
pub open spec fn align_right(s: Seq<char>, width: nat) -> Seq<char> {
    if s.len() >= width {
        s
    } else {
        repeat_seq(" "@, (width - s.len()) as nat) + s
    }
}

/// A text left-aligned in `width` characters.
pub open spec fn align_left(s: Seq<char>, width: nat) -> Seq<char> {
    if s.len() >= width {
        s
    } else {
        s + repeat_seq(" "@, (width - s.len()) as nat)
    }
}

/// A rule of the table, with a run of dashes two longer than each column.
pub open spec fn table_rule(cw: nat, sw: nat, dw: nat) -> Seq<char> {
    "+"@ + repeat_seq("-"@, cw + 2) + "+"@ + repeat_seq("-"@, sw + 2) + "+"@ + repeat_seq(
        "-"@,
        dw + 2,
    ) + "+"@
}

/// A row of the table: the count right-aligned, the addresses left-aligned.
pub open spec fn table_row(
    count: Seq<char>,
    source: Seq<char>,
    dest: Seq<char>,
    cw: nat,
    sw: nat,
    dw: nat,
) -> Seq<char> {
    "| "@ + align_right(count, cw) + " | "@ + align_left(source, sw) + " | "@ + align_left(dest, dw)
        + " |"@
}

/// The text shown when there is nothing to tabulate.
pub open spec fn no_stats_text() -> Seq<char> {
    "No flows collected yet..."@
}

/// The lines of the statistics table: rule, header, rule, one row per entry, rule.
pub open spec fn stats_lines(rows: Seq<StatRow>) -> Seq<Seq<char>> {
    let cw = count_column(rows);
    let sw = source_column(rows);
    let dw = dest_column(rows);
    let rule = table_rule(cw, sw, dw);
    seq![rule, table_row("Count"@, "Source IP"@, "Dest IP"@, cw, sw, dw), rule] + rows.map_values(
        |r: StatRow| table_row(decimal(r.2 as nat), r.0@, r.1@, cw, sw, dw),
    ) + seq![rule]
}

/// The statistics as a table: its lines joined by newlines.
pub open spec fn stats_table(rows: Seq<StatRow>) -> Seq<char> {
    joined(stats_lines(rows), "\n"@)
}

/// Renders collected flow counts as a plain-text table.
pub struct StatsFormatter;

impl StatsFormatter {
    pub fn new(_colored: bool) -> Self {
        StatsFormatter
    }

    fn align_right_text(s: &str, width: usize) -> (r: String)
        ensures
            r@ == align_right(s@, width as nat),
    {
        let len = s.unicode_len();
        if len >= width {
            s.to_owned()
        } else {
            let mut r = repeat_str(" ", width - len);
            r.append(s);
            r
        }
    }

    fn align_left_text(s: &str, width: usize) -> (r: String)
        ensures
            r@ == align_left(s@, width as nat),
    {
        let len = s.unicode_len();
        if len >= width {
            s.to_owned()
        } else {
            let mut r = s.to_owned();
            let fill = repeat_str(" ", width - len);
            r.append(fill.as_str());
            r
        }
    }

    fn row_text(
        count: &str,
        source: &str,
        dest: &str,
        cw: usize,
        sw: usize,
        dw: usize,
    ) -> (r: String)
        ensures
            r@ == table_row(count@, source@, dest@, cw as nat, sw as nat, dw as nat),
    {
        let mut r = "| ".to_owned();
        let c = Self::align_right_text(count, cw);
        r.append(c.as_str());
        r.append(" | ");
        let s = Self::align_left_text(source, sw);
        r.append(s.as_str());
        r.append(" | ");
        let d = Self::align_left_text(dest, dw);
        r.append(d.as_str());
        r.append(" |");
        r
    }

    /// A run of `width + 2` dashes, built without computing `width + 2`.
    fn dash_run(width: usize) -> (r: String)
        ensures
            r@ == repeat_seq("-"@, (width + 2) as nat),
    {
        let mut r = repeat_str("-", width);
        r.append("--");
        proof {
            reveal_strlit("--");
            reveal_strlit("-");
            assert(repeat_seq("-"@, (width + 2) as nat) == repeat_seq("-"@, (width + 1) as nat) + "-"@);
            assert(repeat_seq("-"@, (width + 1) as nat) == repeat_seq("-"@, width as nat) + "-"@);
            assert(r@ =~= repeat_seq("-"@, (width + 2) as nat));
        }
        r
    }

    fn rule_text(cw: usize, sw: usize, dw: usize) -> (r: String)
        ensures
            r@ == table_rule(cw as nat, sw as nat, dw as nat),
    {
        let mut r = "+".to_owned();
        let a = Self::dash_run(cw);
        r.append(a.as_str());
        r.append("+");
        let b = Self::dash_run(sw);
        r.append(b.as_str());
        r.append("+");
        let c = Self::dash_run(dw);
        r.append(c.as_str());
        r.append("+");
        r
    }

    pub fn format_stats(&self, stats: &[StatRow]) -> (r: String)
        ensures
            r@ == if stats@.len() == 0 {
                no_stats_text()
            } else {
                stats_table(stats@)
            },
    {
        if stats.len() == 0 {
            return "No flows collected yet...".to_owned();
        }
        let n = stats.len();
        let mut count_width: usize = 5;
        let mut src_width: usize = 9;
        let mut dst_width: usize = 7;
        let mut i: usize = 0;
        while i < n
            invariant
                i <= n == stats@.len(),
                count_width == max_nat(5, max_count_len(stats@.take(i as int))),
                src_width == max_nat(9, max_source_len(stats@.take(i as int))),
                dst_width == max_nat(7, max_dest_len(stats@.take(i as int))),
                count_width <= 20,
            decreases n - i,
        {
            let ghost next = stats@.take(i + 1);
            assert(next.drop_last() =~= stats@.take(i as int));
            assert(next.last() == stats@[i as int]);
            let count_text = format_u64(stats[i].2);
            let count_len = count_text.as_str().as_bytes().len();
            proof {
                lemma_decimal_u64_bytes(stats@[i as int].2);
            }
            if count_len > count_width {
                count_width = count_len;
            }
            let src_len = stats[i].0.as_str().as_bytes().len();
            if src_len > src_width {
                src_width = src_len;
            }
            let dst_len = stats[i].1.as_str().as_bytes().len();
            if dst_len > dst_width {
                dst_width = dst_len;
            }
            i = i + 1;
        }
        assert(stats@.take(n as int) =~= stats@);
        let ghost cw = count_column(stats@);
        let ghost sw = source_column(stats@);
        let ghost dw = dest_column(stats@);
        let mut lines: Vec<String> = Vec::new();
        let top = Self::rule_text(count_width, src_width, dst_width);
        lines.push(top);
        let header = Self::row_text("Count", "Source IP", "Dest IP", count_width, src_width, dst_width);
        lines.push(header);
        let sep = Self::rule_text(count_width, src_width, dst_width);
        lines.push(sep);
        let mut j: usize = 0;
        while j < n
            invariant
                j <= n == stats@.len(),
                count_width == cw,
                src_width == sw,
                dst_width == dw,
                lines@.len() == 3 + j,
                lines@[0]@ == table_rule(cw, sw, dw),
                lines@[1]@ == table_row("Count"@, "Source IP"@, "Dest IP"@, cw, sw, dw),
                lines@[2]@ == table_rule(cw, sw, dw),
                forall|k: int|
                    0 <= k < j ==> #[trigger] lines@[3 + k]@ == table_row(
                        decimal(stats@[k].2 as nat),
                        stats@[k].0@,
                        stats@[k].1@,
                        cw,
                        sw,
                        dw,
                    ),
            decreases n - j,
        {
            let count_text = format_u64(stats[j].2);
            let row = Self::row_text(
                count_text.as_str(),
                stats[j].0.as_str(),
                stats[j].1.as_str(),
                count_width,
                src_width,
                dst_width,
            );
            let ghost old_lines = lines@;
            lines.push(row);
            assert forall|k: int| 0 <= k < j + 1 implies #[trigger] lines@[3 + k]@ == table_row(
                decimal(stats@[k].2 as nat),
                stats@[k].0@,
                stats@[k].1@,
                cw,
                sw,
                dw,
            ) by {
                if k < j {
                    assert(lines@[3 + k] == old_lines[3 + k]);
                }
            }
            j = j + 1;
        }
        let bottom = Self::rule_text(count_width, src_width, dst_width);
        lines.push(bottom);
        let ghost rule = table_rule(cw, sw, dw);
        let ghost expected = seq![
            rule,
            table_row("Count"@, "Source IP"@, "Dest IP"@, cw, sw, dw),
            rule,
        ] + stats@.map_values(
            |r: StatRow| table_row(decimal(r.2 as nat), r.0@, r.1@, cw, sw, dw),
        ) + seq![rule];
        assert(views(lines@) =~= expected) by {
            assert forall|k: int| 0 <= k < lines@.len() implies views(lines@)[k] == expected[k] by {
                if 3 <= k < 3 + n {
                    assert(lines@[3 + (k - 3)]@ == table_row(
                        decimal(stats@[k - 3].2 as nat),
                        stats@[k - 3].0@,
                        stats@[k - 3].1@,
                        cw,
                        sw,
                        dw,
                    ));
                }
            }
        }
        join_strings(&lines, "\n")
    }
}

} // verus!
