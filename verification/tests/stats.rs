use cilium_monitor::stats_formatter::StatsFormatter;

fn row(src: &str, dst: &str, count: u64) -> (String, String, u64) {
    (src.to_string(), dst.to_string(), count)
}

#[test]
fn empty_stats_have_a_notice() {
    let f = StatsFormatter::new(true);
    assert_eq!(f.format_stats(&[]), "No flows collected yet...");
}

#[test]
fn stats_table_with_two_rows() {
    let f = StatsFormatter::new(false);
    let table = f.format_stats(&[row("10.0.0.1", "8.8.8.8", 5), row("192.168.100.200", "1.1.1.1", 12345)]);
    let expected = [
        "+-------+-----------------+---------+",
        "| Count | Source IP       | Dest IP |",
        "+-------+-----------------+---------+",
        "|     5 | 10.0.0.1        | 8.8.8.8 |",
        "| 12345 | 192.168.100.200 | 1.1.1.1 |",
        "+-------+-----------------+---------+",
    ]
    .join("\n");
    assert_eq!(table, expected);
}

#[test]
fn stats_columns_grow_with_wide_counts() {
    let f = StatsFormatter::new(false);
    let table = f.format_stats(&[row("a", "b", 1234567)]);
    let expected = [
        "+---------+-----------+---------+",
        "|   Count | Source IP | Dest IP |",
        "+---------+-----------+---------+",
        "| 1234567 | a         | b       |",
        "+---------+-----------+---------+",
    ]
    .join("\n");
    assert_eq!(table, expected);
}

#[test]
fn stats_lines_all_have_the_same_length() {
    let f = StatsFormatter::new(false);
    let table = f.format_stats(&[
        row("fe80::1", "\u{e9}\u{e9}", u64::MAX),
        row("10.42.0.7", "10.42.0.8", 0),
    ]);
    let lengths: Vec<usize> = table.lines().map(|l| l.chars().count()).collect();
    assert_eq!(lengths.len(), 6);
    assert!(lengths.iter().all(|&n| n == lengths[0]));
}

#[test]
fn stats_ignore_the_colour_switch() {
    let rows = [row("10.0.0.1", "8.8.8.8", 5), row("fd00::1", "fd00::2", 17)];
    assert_eq!(
        StatsFormatter::new(true).format_stats(&rows),
        StatsFormatter::new(false).format_stats(&rows)
    );
}
