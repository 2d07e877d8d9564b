use vstd::prelude::*;
use vstd::utf8::{encode_utf8, is_ascii_chars, is_ascii_chars_encode_utf8};

verus! {

/// The number of bytes of the UTF-8 encoding of a character sequence.
pub open spec fn byte_len(s: Seq<char>) -> nat {
    encode_utf8(s).len()
}

/// Appends one character to a string by calling `String::push`; the contract claims that the
/// string's characters afterwards are the former ones followed by `c`.
#[verifier::external_body]
pub(crate) fn push_char(s: &mut String, c: char)
    ensures
        final(s)@ == old(s)@.push(c),
{
    s.push(c);
}

/// The characters of a string slice, in order.
pub fn chars_of(s: &str) -> (v: Vec<char>)
    ensures
        v@ == s@,
{
    let mut v: Vec<char> = Vec::new();
    for c in it: s.chars()
        invariant
            v@ == it.seq().take(it.index() as int),
    {
        v.push(c);
    }
    v
}


/// The decimal digit character of a value below ten.
pub open spec fn digit_char(d: nat) -> char
    recommends
        d < 10,
{
    ((d + 48) as u8) as char
}

/// The decimal representation of a natural number, most significant digit first.
pub open spec fn decimal(n: nat) -> Seq<char>
    decreases n,
{
    if n < 10 {
        seq![digit_char(n)]
    } else {
        decimal(n / 10).push(digit_char(n % 10))
    }
}

/// The decimal representation of an integer, with a leading minus sign when negative.
pub open spec fn signed_decimal(n: int) -> Seq<char> {
    if n < 0 {
        seq!['-'] + decimal((-n) as nat)
    } else {
        decimal(n as nat)
    }
}

/// Ten to the power `k`.
pub open spec fn pow10(k: nat) -> nat
    decreases k,
{
    if k == 0 {
        1
    } else {
        10 * pow10((k - 1) as nat)
    }
}

/// Every character of a decimal representation is an ASCII digit.
pub proof fn lemma_decimal_ascii(n: nat)
    ensures
        is_ascii_chars(decimal(n)),
        forall|i: int| 0 <= i < decimal(n).len() ==> '0' <= #[trigger] decimal(n)[i] <= '9',
    decreases n,
{
    if n >= 10 {
        lemma_decimal_ascii(n / 10);
    }
}

/// A number below `10^k` has at most `k` decimal digits (and always at least one).
pub proof fn lemma_decimal_len(n: nat, k: nat)
    requires
        n < pow10(k),
    ensures
        1 <= decimal(n).len() <= if k == 0 { 1 } else { k },
    decreases n,
{
    if n >= 10 {
        assert(k >= 2) by {
            if k <= 1 {
                reveal_with_fuel(pow10, 2);
            }
        }
        assert(n / 10 < pow10((k - 1) as nat));
        lemma_decimal_len(n / 10, (k - 1) as nat);
    }
}

/// The decimal text of a `u64` is ASCII and takes at most twenty bytes.
pub proof fn lemma_decimal_u64_bytes(n: u64)
    ensures
        byte_len(decimal(n as nat)) == decimal(n as nat).len(),
        byte_len(decimal(n as nat)) <= 20,
{
    lemma_decimal_ascii(n as nat);
    is_ascii_chars_encode_utf8(decimal(n as nat));
    reveal_with_fuel(pow10, 21);
    assert(pow10(20) == 100000000000000000000nat);
    lemma_decimal_len(n as nat, 20);
}

fn digit(d: u64) -> (c: char)
    requires
        d < 10,
    ensures
        c == digit_char(d as nat),
{
    ((d + 48) as u8) as char
}

fn append_decimal(s: &mut String, n: u64)
    ensures
        final(s)@ == old(s)@ + decimal(n as nat),
    decreases n,
{
    if n < 10 {
        push_char(s, digit(n));
    } else {
        append_decimal(s, n / 10);
        push_char(s, digit(n % 10));
    }
}

/// Formats an unsigned number in decimal, as `to_string` does.
pub fn format_u64(n: u64) -> (r: String)
    ensures
        r@ == decimal(n as nat),
{
    let mut s = String::new();
    append_decimal(&mut s, n);
    s
}

/// Formats a signed number in decimal, as `to_string` does.
pub fn format_i64(n: i64) -> (r: String)
    ensures
        r@ == signed_decimal(n as int),
{
    let mut s = String::new();
    if n < 0 {
        push_char(&mut s, '-');
        let m: u64 = (0i128 - n as i128) as u64;
        append_decimal(&mut s, m);
    } else {
        append_decimal(&mut s, n as u64);
    }
    s
}


/// `n` copies of `s`, one after another.
pub open spec fn repeat_seq(s: Seq<char>, n: nat) -> Seq<char>
    decreases n,
{
    if n == 0 {
        Seq::empty()
    } else {
        repeat_seq(s, (n - 1) as nat) + s
    }
}

/// Repeats a string `n` times, as `str::repeat` does.
pub fn repeat_str(s: &str, n: usize) -> (r: String)
    ensures
        r@ == repeat_seq(s@, n as nat),
{
    let mut r = String::new();
    let mut i: usize = 0;
    while i < n
        invariant
            i <= n,
            r@ == repeat_seq(s@, i as nat),
        decreases n - i,
    {
        r.append(s);
        i = i + 1;
    }
    r
}

/// The views of a sequence of strings.
pub open spec fn views(v: Seq<String>) -> Seq<Seq<char>> {
    v.map_values(|s: String| s@)
}

/// The lines joined with `sep` between each two, as `join` on a slice of strings does.
pub open spec fn joined(lines: Seq<Seq<char>>, sep: Seq<char>) -> Seq<char>
    decreases lines.len(),
{
    if lines.len() == 0 {
        Seq::empty()
    } else if lines.len() == 1 {
        lines[0]
    } else {
        joined(lines.drop_last(), sep) + sep + lines.last()
    }
}

/// Joins strings with a separator, as `join` on a slice of strings does.
pub fn join_strings(lines: &Vec<String>, sep: &str) -> (r: String)
    ensures
        r@ == joined(views(lines@), sep@),
{
    let mut r = String::new();
    let n = lines.len();
    let mut i: usize = 0;
    while i < n
        invariant
            i <= n == lines@.len(),
            r@ == joined(views(lines@).take(i as int), sep@),
        decreases n - i,
    {
        let ghost done = views(lines@).take(i as int);
        let ghost next = views(lines@).take(i + 1);
        assert(next.drop_last() =~= done);
        assert(next.last() == lines@[i as int]@);
        if i != 0 {
            r.append(sep);
        } else {
            assert(r@ + lines@[0]@ =~= lines@[0]@);
        }
        r.append(lines[i].as_str());
        i = i + 1;
    }
    assert(views(lines@).take(n as int) =~= views(lines@));
    r
}


/// True when the character `c` does not occur in `s`.
pub open spec fn lacks(s: Seq<char>, c: char) -> bool {
    forall|i: int| 0 <= i < s.len() ==> s[i] != c
}

/// A character is missing from two texts put together exactly when it is missing from both.
pub broadcast proof fn lemma_lacks_concat(a: Seq<char>, b: Seq<char>, c: char)
    ensures
        #[trigger] lacks(a + b, c) == (lacks(a, c) && lacks(b, c)),
{
    if lacks(a, c) && lacks(b, c) {
        assert forall|i: int| 0 <= i < (a + b).len() implies (a + b)[i] != c by {
            if i >= a.len() {
                assert((a + b)[i] == b[i - a.len()]);
            }
        }
    }
    if lacks(a + b, c) {
        assert forall|i: int| 0 <= i < b.len() implies b[i] != c by {
            assert((a + b)[a.len() + i] == b[i]);
        }
        assert forall|i: int| 0 <= i < a.len() implies a[i] != c by {
            assert((a + b)[i] == a[i]);
        }
    }
}

/// Repeating a text that lacks a character gives a text that lacks it too.
pub proof fn lemma_repeat_lacks(s: Seq<char>, n: nat, c: char)
    requires
        lacks(s, c),
    ensures
        lacks(repeat_seq(s, n), c),
    decreases n,
{
    broadcast use lemma_lacks_concat;

    if n > 0 {
        lemma_repeat_lacks(s, (n - 1) as nat, c);
    }
}

/// The text cut at each newline, as `str::split('\n')` cuts it: `n` newlines give `n + 1`
/// pieces, none of which holds a newline.
pub open spec fn split_lines(s: Seq<char>) -> Seq<Seq<char>>
    decreases s.len(),
{
    if s.len() == 0 {
        seq![Seq::empty()]
    } else if s.last() == '\n' {
        split_lines(s.drop_last()).push(Seq::empty())
    } else {
        let pieces = split_lines(s.drop_last());
        pieces.update(pieces.len() - 1, pieces.last().push(s.last()))
    }
}

proof fn lemma_split_nonempty(s: Seq<char>)
    ensures
        split_lines(s).len() >= 1,
    decreases s.len(),
{
    if s.len() > 0 {
        lemma_split_nonempty(s.drop_last());
    }
}

/// A text with no newline is a single piece, and a newline followed by such a text adds
/// one piece.
proof fn lemma_split_tail(a: Seq<char>, b: Seq<char>)
    requires
        lacks(b, '\n'),
    ensures
        split_lines(b) == seq![b],
        split_lines(a + seq!['\n'] + b) == split_lines(a).push(b),
    decreases b.len(),
{
    let t = a + seq!['\n'] + b;
    if b.len() == 0 {
        assert(b =~= Seq::<char>::empty());
        assert(t.drop_last() =~= a);
    } else {
        let bl = b.drop_last();
        assert(lacks(bl, '\n'));
        lemma_split_tail(a, bl);
        lemma_split_nonempty(a);
        assert(t.drop_last() =~= a + seq!['\n'] + bl);
        assert(t.last() == b.last());
        assert(bl.push(b.last()) =~= b);
        assert(split_lines(t) =~= split_lines(a).push(b));
        assert(seq![bl].update(0, bl.push(b.last())) =~= seq![b]);
    }
}

/// Joining lines that hold no newline with newlines, then splitting at newlines, gives the
/// lines back.
pub proof fn lemma_split_joined(lines: Seq<Seq<char>>)
    requires
        lines.len() >= 1,
        forall|i: int| 0 <= i < lines.len() ==> lacks(#[trigger] lines[i], '\n'),
    ensures
        split_lines(joined(lines, "\n"@)) == lines,
    decreases lines.len(),
{
    reveal_strlit("\n");
    if lines.len() == 1 {
        lemma_split_tail(Seq::empty(), lines[0]);
        assert(seq![lines[0]] =~= lines);
    } else {
        let init = lines.drop_last();
        assert forall|i: int| 0 <= i < init.len() implies lacks(#[trigger] init[i], '\n') by {
            assert(init[i] == lines[i]);
        }
        lemma_split_joined(init);
        lemma_split_tail(joined(init, "\n"@), lines.last());
        assert(joined(lines, "\n"@) == joined(init, "\n"@) + seq!['\n'] + lines.last());
        assert(init.push(lines.last()) =~= lines);
    }
}

} // verus!
