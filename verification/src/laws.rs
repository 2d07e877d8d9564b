use vstd::prelude::*;
use vstd::utf8::{encode_scalar, is_ascii_chars, is_ascii_chars_encode_utf8};
use crate::flow::{GetFlowsResponse, ResponseTypes};
use crate::formatter::{
    box_line, box_rule, boxed, ellipsis, esc, flow_lines, is_csi_start, padded, painted, rendered,
    strip_ansi, truncate_scan, truncated, visible_len, Color, BOX_WIDTH,
};
use crate::stats_formatter::{
    align_left, align_right, count_column, dest_column, max_count_len, max_dest_len,
    max_source_len, source_column, stats_lines, stats_table, table_row, table_rule, StatRow,
};
use crate::text::{
    byte_len, decimal, joined, lacks, lemma_decimal_ascii, lemma_lacks_concat, lemma_repeat_lacks,
    lemma_split_joined, repeat_seq, split_lines,
};

verus! {

/// True when a text holds no escape character, so no ANSI sequence either.
pub open spec fn no_escape(s: Seq<char>) -> bool {
    forall|i: int| 0 <= i < s.len() ==> s[i] != esc()
}

/// The UTF-8 length of two texts put together is the sum of their lengths.
pub proof fn lemma_byte_len_concat(a: Seq<char>, b: Seq<char>)
    ensures
        byte_len(a + b) == byte_len(a) + byte_len(b),
    decreases a.len(),
{
    if a.len() == 0 {
        assert(a + b =~= b);
    } else {
        assert((a + b).drop_first() =~= a.drop_first() + b);
        assert((a + b)[0] == a[0]);
        lemma_byte_len_concat(a.drop_first(), b);
    }
}

/// Every character takes at least one byte, so a text has at least as many bytes as characters.
pub proof fn lemma_len_le_byte_len(s: Seq<char>)
    ensures
        s.len() <= byte_len(s),
    decreases s.len(),
{
    if s.len() > 0 {
        assert(encode_scalar(s[0] as u32).len() >= 1);
        lemma_len_le_byte_len(s.drop_first());
    }
}

/// Every character takes at most four bytes.
pub proof fn lemma_byte_len_le_four_times(s: Seq<char>)
    ensures
        byte_len(s) <= 4 * s.len(),
    decreases s.len(),
{
    if s.len() > 0 {
        assert(encode_scalar(s[0] as u32).len() <= 4);
        lemma_byte_len_le_four_times(s.drop_first());
    }
}

/// A run of `n` spaces: ASCII, free of escapes, `n` characters long.
pub proof fn lemma_spaces(n: nat)
    ensures
        repeat_seq(" "@, n).len() == n,
        is_ascii_chars(repeat_seq(" "@, n)),
        no_escape(repeat_seq(" "@, n)),
    decreases n,
{
    reveal_strlit(" ");
    if n > 0 {
        lemma_spaces((n - 1) as nat);
        let prev = repeat_seq(" "@, (n - 1) as nat);
        assert(repeat_seq(" "@, n) == prev + " "@);
        assert forall|i: int| 0 <= i < n implies #[trigger] repeat_seq(" "@, n)[i] == ' ' || repeat_seq(
            " "@,
            n,
        )[i] == prev[i] by {
            if i < n - 1 {
                assert(repeat_seq(" "@, n)[i] == prev[i]);
            }
        }
    }
}

/// A run of `n` copies of a one-character text is `n` characters long.
pub proof fn lemma_repeat_single_len(s: Seq<char>, n: nat)
    requires
        s.len() == 1,
    ensures
        repeat_seq(s, n).len() == n,
    decreases n,
{
    if n > 0 {
        lemma_repeat_single_len(s, (n - 1) as nat);
    }
}

/// Removing ANSI sequences leaves a text without escapes as it is.
pub proof fn lemma_strip_plain(s: Seq<char>)
    requires
        no_escape(s),
    ensures
        strip_ansi(s) == s,
    decreases s.len(),
{
    if s.len() > 0 {
        assert(!is_csi_start(s, 0));
        assert(no_escape(s.drop_first()));
        lemma_strip_plain(s.drop_first());
        assert(seq![s[0]] + s.drop_first() =~= s);
    }
}

/// A text without escapes shows as many bytes as it has.
pub proof fn law_plain_text_width(s: Seq<char>)
    requires
        no_escape(s),
    ensures
        visible_len(s) == byte_len(s),
{
    lemma_strip_plain(s);
}

/// Removing ANSI sequences keeps a prefix of the text, and a second removal changes nothing.
pub proof fn law_strip_ansi_prefix_idempotent(s: Seq<char>)
    ensures
        strip_ansi(s).len() <= s.len(),
        strip_ansi(s) =~= s.take(strip_ansi(s).len() as int),
        strip_ansi(strip_ansi(s)) == strip_ansi(s),
    decreases s.len(),
{
    if s.len() > 0 && !is_csi_start(s, 0) {
        let t = s.drop_first();
        law_strip_ansi_prefix_idempotent(t);
        let st = strip_ansi(t);
        assert(strip_ansi(s) == seq![s[0]] + st);
        assert forall|k: int| 0 <= k < strip_ansi(s).len() implies s.take(
            strip_ansi(s).len() as int,
        )[k] == (seq![s[0]] + t.take(st.len() as int))[k] by {
            if k > 0 {
                assert(s[k] == t[k - 1]);
            }
        }
        assert(s.take(strip_ansi(s).len() as int) =~= seq![s[0]] + t.take(st.len() as int));
        let r = strip_ansi(s);
        if r.len() > 0 && is_csi_start(r, 0) {
            // `r` begins like `s`, so `s` would begin a sequence too.
            if st.len() > 0 {
                assert(r[1] == st[0]);
                assert(st[0] == t.take(st.len() as int)[0]);
                assert(t[0] == s[1]);
            }
            assert(is_csi_start(s, 0));
        }
        assert(r.drop_first() =~= st);
    }
}

/// A text never shows more bytes than it has.
pub proof fn law_visible_width_bounded(s: Seq<char>)
    ensures
        visible_len(s) <= byte_len(s),
{
    law_strip_ansi_prefix_idempotent(s);
    let k = strip_ansi(s).len() as int;
    assert(s =~= s.take(k) + s.skip(k));
    lemma_byte_len_concat(s.take(k), s.skip(k));
}

/// Painting a text with colours off leaves it as it is; painted with colours on, it opens with
/// an ANSI sequence and so shows no width at all, and cutting it to any width leaves it whole.
pub proof fn law_painted_width(s: Seq<char>, c: Color, max_width: nat)
    ensures
        painted(false, s, c) == s,
        visible_len(painted(true, s, c)) == 0,
        truncated(painted(true, s, c), max_width) == painted(true, s, c),
{
    reveal_strlit("\x1b[");
    let p = painted(true, s, c);
    assert(p[0] == esc() && p[1] == '[');
    assert(is_csi_start(p, 0));
    assert(strip_ansi(p) =~= Seq::<char>::empty());
}

/// Cutting a text without escapes keeps its first `budget` characters and appends "...".
pub proof fn lemma_truncate_plain(s: Seq<char>, budget: nat)
    requires
        no_escape(s),
    ensures
        truncate_scan(s, budget, false) == (if s.len() <= budget {
            s
        } else {
            s.take(budget as int)
        }) + ellipsis(),
    decreases s.len(),
{
    if s.len() == 0 {
        assert(s + ellipsis() =~= ellipsis());
    } else {
        assert(!is_csi_start(s, 0));
        if budget == 0 {
            assert(s.take(0) + ellipsis() =~= ellipsis());
        } else {
            let t = s.drop_first();
            assert(no_escape(t));
            lemma_truncate_plain(t, (budget - 1) as nat);
            if s.len() <= budget {
                assert(seq![s[0]] + (t + ellipsis()) =~= s + ellipsis());
            } else {
                assert(seq![s[0]] + (t.take(budget - 1) + ellipsis()) =~= s.take(budget as int)
                    + ellipsis());
            }
        }
    }
}

/// Cutting a text without escapes to `max_width` (at least 3): a text that fits in
/// `max_width` bytes stays whole; any other keeps at most `max_width - 3` characters and
/// ends in "...". An ASCII text then has exactly `max_width` characters.
pub proof fn law_truncated_width(s: Seq<char>, max_width: nat)
    requires
        no_escape(s),
        max_width >= 3,
    ensures
        truncated(s, max_width) == if byte_len(s) <= max_width {
            s
        } else if s.len() <= max_width - 3 {
            s + ellipsis()
        } else {
            s.take(max_width - 3) + ellipsis()
        },
        no_escape(truncated(s, max_width)),
        is_ascii_chars(s) ==> is_ascii_chars(truncated(s, max_width)),
        is_ascii_chars(s) ==> truncated(s, max_width).len() == if s.len() <= max_width {
            s.len()
        } else {
            max_width
        },
{
    law_plain_text_width(s);
    reveal_strlit("...");
    if is_ascii_chars(s) {
        is_ascii_chars_encode_utf8(s);
    }
    if byte_len(s) > max_width {
        lemma_truncate_plain(s, (max_width - 3) as nat);
        let t = truncated(s, max_width);
        let k = if s.len() <= max_width - 3 { s.len() as int } else { max_width - 3 };
        assert(t =~= s.take(k) + ellipsis());
        assert forall|i: int| 0 <= i < t.len() implies t[i] != esc() && (is_ascii_chars(s) ==> '\0'
            <= #[trigger] t[i] <= '\u{7f}') by {
            if i < k {
                assert(t[i] == s[i]);
            }
        }
        if is_ascii_chars(s) {
            is_ascii_chars_encode_utf8(s);
        }
    }
}

/// Filling a text without escapes that shows at most `width` bytes makes it show exactly
/// `width`; an ASCII text then has exactly `width` characters.
pub proof fn law_padded_width(s: Seq<char>, width: nat)
    requires
        no_escape(s),
        byte_len(s) <= width,
    ensures
        visible_len(padded(s, width)) == width,
        is_ascii_chars(s) ==> padded(s, width).len() == width,
{
    law_plain_text_width(s);
    if is_ascii_chars(s) {
        is_ascii_chars_encode_utf8(s);
    }
    if byte_len(s) < width {
        let n = (width - byte_len(s)) as nat;
        let fill = repeat_seq(" "@, n);
        lemma_spaces(n);
        is_ascii_chars_encode_utf8(fill);
        let p = s + fill;
        assert(padded(s, width) == p);
        assert(no_escape(p)) by {
            assert forall|i: int| 0 <= i < p.len() implies p[i] != esc() by {
                if i < s.len() {
                    assert(p[i] == s[i]);
                } else {
                    assert(p[i] == fill[i - s.len()]);
                }
            }
        }
        law_plain_text_width(p);
        lemma_byte_len_concat(s, fill);
        if is_ascii_chars(s) {
            is_ascii_chars_encode_utf8(s);
        }
    }
}

/// Inside a box, every line of ASCII text without escapes takes exactly the box width in
/// characters, as many as the rules above and below it.
pub proof fn law_box_lines_aligned(line: Seq<char>)
    requires
        is_ascii_chars(line),
        no_escape(line),
    ensures
        box_line(line).len() == BOX_WIDTH,
        box_rule().len() == BOX_WIDTH,
{
    law_truncated_width(line, BOX_WIDTH as nat);
    let t = truncated(line, BOX_WIDTH as nat);
    is_ascii_chars_encode_utf8(t);
    law_padded_width(t, BOX_WIDTH as nat);
    reveal_strlit("\u{2550}");
    lemma_repeat_single_len("\u{2550}"@, BOX_WIDTH as nat);
}

/// A stream message renders as an empty text exactly when it holds no flow, so the console
/// can tell by the text alone whether there is anything to print.
pub proof fn law_rendered_empty_iff_no_flow(on: bool, response: GetFlowsResponse)
    ensures
        (rendered(on, response).len() == 0) <==> !(response.response_types matches Some(
            ResponseTypes::Flow(_),
        )),
{
    if let Some(ResponseTypes::Flow(flow)) = response.response_types {
        reveal_strlit("\n");
        let lines = seq![box_rule()] + flow_lines(on, flow).map_values(
            |l: Seq<char>| box_line(l),
        ) + seq![box_rule()];
        assert(lines.len() >= 2);
        assert(joined(lines, "\n"@) == joined(lines.drop_last(), "\n"@) + "\n"@ + lines.last());
        assert(boxed(flow_lines(on, flow)) == joined(lines, "\n"@));
    }
}

/// Each row's count, source and destination fit within the widest of the rows.
pub proof fn lemma_row_widths(rows: Seq<StatRow>, i: int)
    requires
        0 <= i < rows.len(),
    ensures
        byte_len(decimal(rows[i].2 as nat)) <= max_count_len(rows),
        byte_len(rows[i].0@) <= max_source_len(rows),
        byte_len(rows[i].1@) <= max_dest_len(rows),
    decreases rows.len(),
{
    if i < rows.len() - 1 {
        assert(rows.drop_last()[i] == rows[i]);
        lemma_row_widths(rows.drop_last(), i);
    }
}

/// A text no wider than `width` characters, aligned either way, takes exactly `width`.
pub proof fn lemma_aligned_len(s: Seq<char>, width: nat)
    requires
        s.len() <= width,
    ensures
        align_right(s, width).len() == width,
        align_left(s, width).len() == width,
{
    lemma_spaces((width - s.len()) as nat);
}

/// Every line of the statistics table has the same number of characters: the three column
/// widths plus the ten characters of borders and spacing.
pub proof fn law_stats_lines_aligned(rows: Seq<StatRow>)
    ensures
        forall|i: int|
            0 <= i < stats_lines(rows).len() ==> #[trigger] stats_lines(rows)[i].len()
                == count_column(rows) + source_column(rows) + dest_column(rows) + 10,
{
    let cw = count_column(rows);
    let sw = source_column(rows);
    let dw = dest_column(rows);
    let lines = stats_lines(rows);
    reveal_strlit("+");
    reveal_strlit("-");
    reveal_strlit("| ");
    reveal_strlit(" | ");
    reveal_strlit(" |");
    reveal_strlit("Count");
    reveal_strlit("Source IP");
    reveal_strlit("Dest IP");
    lemma_repeat_single_len("-"@, cw + 2);
    lemma_repeat_single_len("-"@, sw + 2);
    lemma_repeat_single_len("-"@, dw + 2);
    lemma_aligned_len("Count"@, cw);
    lemma_aligned_len("Source IP"@, sw);
    lemma_aligned_len("Dest IP"@, dw);
    assert forall|i: int| 0 <= i < lines.len() implies #[trigger] lines[i].len() == cw + sw + dw
        + 10 by {
        if 3 <= i < 3 + rows.len() {
            let k = i - 3;
            let r = rows[k];
            lemma_row_widths(rows, k);
            lemma_len_le_byte_len(decimal(r.2 as nat));
            lemma_len_le_byte_len(r.0@);
            lemma_len_le_byte_len(r.1@);
            lemma_aligned_len(decimal(r.2 as nat), cw);
            lemma_aligned_len(r.0@, sw);
            lemma_aligned_len(r.1@, dw);
            assert(lines[i] == table_row(decimal(r.2 as nat), r.0@, r.1@, cw, sw, dw));
        }
    }
}

/// The lines of the statistics table hold no newline when no address does.
proof fn lemma_stats_lines_lack_newline(rows: Seq<StatRow>)
    requires
        forall|i: int|
            0 <= i < rows.len() ==> lacks(#[trigger] rows[i].0@, '\n') && lacks(rows[i].1@, '\n'),
    ensures
        forall|i: int| 0 <= i < stats_lines(rows).len() ==> lacks(#[trigger] stats_lines(rows)[i], '\n'),
{
    broadcast use lemma_lacks_concat;

    let cw = count_column(rows);
    let sw = source_column(rows);
    let dw = dest_column(rows);
    let lines = stats_lines(rows);
    reveal_strlit("+");
    reveal_strlit("-");
    reveal_strlit(" ");
    reveal_strlit("| ");
    reveal_strlit(" | ");
    reveal_strlit(" |");
    reveal_strlit("Count");
    reveal_strlit("Source IP");
    reveal_strlit("Dest IP");
    assert(lacks(" "@, '\n'));
    assert(lacks("-"@, '\n'));
    lemma_repeat_lacks("-"@, cw + 2, '\n');
    lemma_repeat_lacks("-"@, sw + 2, '\n');
    lemma_repeat_lacks("-"@, dw + 2, '\n');
    assert(lacks(table_rule(cw, sw, dw), '\n'));
    assert forall|s: Seq<char>, w: nat| lacks(s, '\n') implies #[trigger] lacks(
        align_right(s, w),
        '\n',
    ) by {
        if s.len() < w {
            lemma_repeat_lacks(" "@, (w - s.len()) as nat, '\n');
        }
    }
    assert forall|s: Seq<char>, w: nat| lacks(s, '\n') implies #[trigger] lacks(
        align_left(s, w),
        '\n',
    ) by {
        if s.len() < w {
            lemma_repeat_lacks(" "@, (w - s.len()) as nat, '\n');
        }
    }
    assert(lacks("Count"@, '\n') && lacks("Source IP"@, '\n') && lacks("Dest IP"@, '\n'));
    assert forall|i: int| 0 <= i < lines.len() implies lacks(#[trigger] lines[i], '\n') by {
        if 3 <= i < 3 + rows.len() {
            let r = rows[i - 3];
            lemma_decimal_ascii(r.2 as nat);
            assert(lacks(decimal(r.2 as nat), '\n'));
            assert(lacks(align_right(decimal(r.2 as nat), cw), '\n'));
            assert(lacks(align_left(r.0@, sw), '\n'));
            assert(lacks(align_left(r.1@, dw), '\n'));
            assert(lines[i] == table_row(decimal(r.2 as nat), r.0@, r.1@, cw, sw, dw));
        } else if i == 1 {
            assert(lacks(align_right("Count"@, cw), '\n'));
            assert(lacks(align_left("Source IP"@, sw), '\n'));
            assert(lacks(align_left("Dest IP"@, dw), '\n'));
        }
    }
}

/// Split at its newlines, the statistics table is: a rule of dashes two longer than each
/// column, the header row, the rule again, one row per entry in the given order (count
/// right-aligned, addresses left-aligned), and the rule once more; every line has the same
/// number of characters.
pub proof fn law_stats_table_lines(rows: Seq<StatRow>)
    requires
        forall|i: int|
            0 <= i < rows.len() ==> lacks(#[trigger] rows[i].0@, '\n') && lacks(rows[i].1@, '\n'),
    ensures
        ({
            let cw = count_column(rows);
            let sw = source_column(rows);
            let dw = dest_column(rows);
            let lines = split_lines(stats_table(rows));
            &&& lines.len() == rows.len() + 4
            &&& lines[0] == table_rule(cw, sw, dw)
            &&& lines[2] == lines[0]
            &&& lines[lines.len() - 1] == lines[0]
            &&& lines[1] == table_row("Count"@, "Source IP"@, "Dest IP"@, cw, sw, dw)
            &&& forall|i: int|
                0 <= i < rows.len() ==> #[trigger] lines[3 + i] == table_row(
                    decimal(rows[i].2 as nat),
                    rows[i].0@,
                    rows[i].1@,
                    cw,
                    sw,
                    dw,
                )
            &&& forall|i: int| 0 <= i < lines.len() ==> #[trigger] lines[i].len() == cw + sw + dw + 10
        }),
{
    lemma_stats_lines_lack_newline(rows);
    lemma_split_joined(stats_lines(rows));
    law_stats_lines_aligned(rows);
}

/// Cutting never brings in a character other than those of the text, except the dots of
/// "...".
pub proof fn lemma_truncate_scan_lacks(s: Seq<char>, budget: nat, in_escape: bool, c: char)
    requires
        lacks(s, c),
        c != '.',
    ensures
        lacks(truncate_scan(s, budget, in_escape), c),
    decreases s.len(),
{
    broadcast use lemma_lacks_concat;

    if s.len() > 0 {
        if in_escape {
            lemma_truncate_scan_lacks(s.drop_first(), budget, !crate::formatter::is_ascii_alpha(s[0]), c);
            assert(lacks(seq![s[0]], c));
        } else if is_csi_start(s, 0) {
            lemma_truncate_scan_lacks(s.skip(2), budget, true, c);
            assert(lacks(seq![esc()], c));
        } else if budget > 0 {
            lemma_truncate_scan_lacks(s.drop_first(), (budget - 1) as nat, false, c);
            assert(lacks(seq![s[0]], c));
        }
    }
}

/// A line inside a box holds a character only if the line, the dots of "..." or the filling
/// spaces bring it in.
pub proof fn lemma_box_line_lacks(l: Seq<char>, c: char)
    requires
        lacks(l, c),
        c != '.',
        c != ' ',
    ensures
        lacks(box_line(l), c),
{
    broadcast use lemma_lacks_concat;

    reveal_strlit(" ");
    let t = truncated(l, BOX_WIDTH as nat);
    if visible_len(l) > BOX_WIDTH {
        lemma_truncate_scan_lacks(l, (BOX_WIDTH - 3) as nat, false, c);
    }
    if visible_len(t) < BOX_WIDTH {
        lemma_repeat_lacks(" "@, (BOX_WIDTH - visible_len(t)) as nat, c);
    }
}

/// The rule of a box holds nothing but the box-drawing character.
pub proof fn lemma_box_rule_lacks(c: char)
    requires
        c != '\u{2550}',
    ensures
        lacks(box_rule(), c),
{
    reveal_strlit("\u{2550}");
    lemma_repeat_lacks("\u{2550}"@, BOX_WIDTH as nat, c);
}

/// Split at its newlines, a box is: the rule, each content line cut and filled to the box
/// width, in order, and the rule again. A content line of ASCII without escapes becomes
/// exactly `BOX_WIDTH` characters: the line as cut, then spaces.
pub proof fn law_box_split_lines(content: Seq<Seq<char>>)
    requires
        forall|i: int| 0 <= i < content.len() ==> lacks(#[trigger] content[i], '\n'),
    ensures
        ({
            let lines = split_lines(boxed(content));
            &&& lines.len() == content.len() + 2
            &&& lines[0] == box_rule()
            &&& lines[lines.len() - 1] == box_rule()
            &&& forall|i: int| 0 <= i < content.len() ==> #[trigger] lines[i + 1] == box_line(content[i])
            &&& forall|i: int|
                0 <= i < content.len() && is_ascii_chars(content[i]) && no_escape(content[i]) ==> {
                    let t = truncated(#[trigger] content[i], BOX_WIDTH as nat);
                    &&& lines[i + 1].len() == BOX_WIDTH
                    &&& t.len() <= BOX_WIDTH
                    &&& lines[i + 1] == t + repeat_seq(" "@, (BOX_WIDTH - t.len()) as nat)
                }
        }),
{
    let all = seq![box_rule()] + content.map_values(|l: Seq<char>| box_line(l)) + seq![box_rule()];
    lemma_box_rule_lacks('\n');
    assert forall|i: int| 0 <= i < all.len() implies lacks(#[trigger] all[i], '\n') by {
        if 1 <= i <= content.len() {
            lemma_box_line_lacks(content[i - 1], '\n');
        }
    }
    lemma_split_joined(all);
    let lines = split_lines(boxed(content));
    assert(lines == all);
    assert forall|i: int| 0 <= i < content.len() implies #[trigger] lines[i + 1] == box_line(content[i]) by {
        assert(all[i + 1] == box_line(content[i]));
    }
    assert forall|i: int|
        0 <= i < content.len() && is_ascii_chars(content[i]) && no_escape(content[i]) implies {
        let t = truncated(#[trigger] content[i], BOX_WIDTH as nat);
        &&& lines[i + 1].len() == BOX_WIDTH
        &&& t.len() <= BOX_WIDTH
        &&& lines[i + 1] == t + repeat_seq(" "@, (BOX_WIDTH - t.len()) as nat)
    } by {
        let l = content[i];
        assert(all[i + 1] == box_line(l));
        law_box_lines_aligned(l);
        law_truncated_width(l, BOX_WIDTH as nat);
        let t = truncated(l, BOX_WIDTH as nat);
        is_ascii_chars_encode_utf8(t);
        law_plain_text_width(t);
        lemma_spaces((BOX_WIDTH - t.len()) as nat);
    }
}

} // verus!
