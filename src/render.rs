//! How detail lines are laid out in the trace text, and the executable
//! pieces that write them.

use vstd::prelude::*;

verus! {

/// Width of the left-justified field that holds a timestamp.
pub const STAMP_WIDTH: usize = 6;

/// `n` space characters.
pub open spec fn spaces(n: nat) -> Seq<char> {
    Seq::new(n, |_i: int| ' ')
}

/// The indentation of a line written at scope depth `d`: two spaces a level.
pub open spec fn indent(d: nat) -> Seq<char> {
    spaces(2 * d)
}

/// The character of a decimal digit.
pub open spec fn digit_char(d: nat) -> char {
    if d == 0 {
        '0'
    } else if d == 1 {
        '1'
    } else if d == 2 {
        '2'
    } else if d == 3 {
        '3'
    } else if d == 4 {
        '4'
    } else if d == 5 {
        '5'
    } else if d == 6 {
        '6'
    } else if d == 7 {
        '7'
    } else if d == 8 {
        '8'
    } else {
        '9'
    }
}

/// The decimal digits of `n`, most significant first, without leading zeros.
pub open spec fn decimal(n: nat) -> Seq<char>
    decreases n,
{
    if n < 10 {
        seq![digit_char(n)]
    } else {
        decimal(n / 10).push(digit_char(n % 10))
    }
}

/// A timestamp left-justified in a field of `STAMP_WIDTH` characters, then
/// one space.
pub open spec fn stamp_field(t: nat) -> Seq<char> {
    let digits = decimal(t);
    let pad: nat = if digits.len() < STAMP_WIDTH {
        (STAMP_WIDTH - digits.len()) as nat
    } else {
        0
    };
    digits + spaces(pad) + seq![' ']
}

/// The prefix of a line: its timestamp field when there is one.
pub open spec fn stamp_prefix(stamp: Option<u64>) -> Seq<char> {
    match stamp {
        Some(t) => stamp_field(t as nat),
        None => Seq::empty(),
    }
}

/// `msg` with `ind` written after each of its newlines, so that every line
/// after the first carries the same indentation.
pub open spec fn indent_lines(msg: Seq<char>, ind: Seq<char>) -> Seq<char>
    decreases msg.len(),
{
    if msg.len() == 0 {
        Seq::empty()
    } else if msg.last() == '\n' {
        indent_lines(msg.drop_last(), ind) + seq!['\n'] + ind
    } else {
        indent_lines(msg.drop_last(), ind).push(msg.last())
    }
}

/// The text that one accepted detail line adds to the trace: the timestamp
/// (once), the indentation of its depth before each of its lines, and a
/// closing newline.
pub open spec fn entry(depth: nat, stamp: Option<u64>, msg: Seq<char>) -> Seq<char> {
    stamp_prefix(stamp) + indent(depth) + indent_lines(msg, indent(depth)) + seq!['\n']
}

/// Whether a character is white space in Unicode's sense.
pub uninterp spec fn is_white_space(c: char) -> bool;

/// The length of `s` once trailing white space is cut off.
pub open spec fn trim_end_len(s: Seq<char>) -> nat
    decreases s.len(),
{
    if s.len() > 0 && is_white_space(s.last()) {
        trim_end_len(s.drop_last())
    } else {
        s.len()
    }
}

/// `s` without its trailing white space.
pub open spec fn trim_end(s: Seq<char>) -> Seq<char> {
    s.take(trim_end_len(s) as int)
}

/// Relies on `char::is_whitespace`: true exactly for the characters with
/// Unicode's White_Space property, which depends on the character alone.
#[verifier::external_body]
fn is_whitespace(c: char) -> (r: bool)
    ensures
        r == is_white_space(c),
{
    c.is_whitespace()
}

/// Appends the indentation of depth `depth` to `buf`.
pub fn push_indent(buf: &mut String, depth: usize)
    ensures
        final(buf)@ == old(buf)@ + indent(depth as nat),
{
    let ghost base = buf@;
    let mut i: usize = 0;
    while i < depth
        invariant
            i <= depth,
            buf@ == base + spaces(2 * i as nat),
        decreases depth - i,
    {
        proof {
            reveal_strlit("  ");
        }
        buf.append("  ");
        assert("  "@ =~= seq![' ', ' ']);
        assert(base + spaces(2 * i as nat) + "  "@ =~= base + spaces(2 * (i + 1) as nat));
        i = i + 1;
    }
}

/// Appends `n` spaces to `buf`.
fn push_spaces(buf: &mut String, n: usize)
    ensures
        final(buf)@ == old(buf)@ + spaces(n as nat),
{
    let ghost base = buf@;
    let mut i: usize = 0;
    while i < n
        invariant
            i <= n,
            buf@ == base + spaces(i as nat),
        decreases n - i,
    {
        proof {
            reveal_strlit(" ");
        }
        buf.append(" ");
        assert(" "@ =~= seq![' ']);
        assert(base + spaces(i as nat) + " "@ =~= base + spaces((i + 1) as nat));
        i = i + 1;
    }
}

/// The one-character text of a decimal digit.
fn digit_str(d: u64) -> (r: &'static str)
    requires
        d < 10,
    ensures
        r@ == seq![digit_char(d as nat)],
{
    proof {
        reveal_strlit("0");
        reveal_strlit("1");
        reveal_strlit("2");
        reveal_strlit("3");
        reveal_strlit("4");
        reveal_strlit("5");
        reveal_strlit("6");
        reveal_strlit("7");
        reveal_strlit("8");
        reveal_strlit("9");
    }
    if d == 0 {
        "0"
    } else if d == 1 {
        "1"
    } else if d == 2 {
        "2"
    } else if d == 3 {
        "3"
    } else if d == 4 {
        "4"
    } else if d == 5 {
        "5"
    } else if d == 6 {
        "6"
    } else if d == 7 {
        "7"
    } else if d == 8 {
        "8"
    } else {
        "9"
    }
}

/// Appends the decimal digits of `n` to `buf`.
pub fn push_decimal(buf: &mut String, n: u64)
    ensures
        final(buf)@ == old(buf)@ + decimal(n as nat),
    decreases n,
{
    if n >= 10 {
        push_decimal(buf, n / 10);
    }
    buf.append(digit_str(n % 10));
    proof {
        if n >= 10 {
            assert(old(buf)@ + decimal((n / 10) as nat) + seq![digit_char((n % 10) as nat)]
                =~= old(buf)@ + decimal(n as nat));
        } else {
            assert(old(buf)@ + seq![digit_char(n as nat)] =~= old(buf)@ + decimal(n as nat));
        }
    }
}

/// The number of decimal digits of `n`.
fn decimal_width(n: u64) -> (w: u64)
    ensures
        w == decimal(n as nat).len(),
    decreases n,
{
    if n < 10 {
        1
    } else {
        let w = decimal_width(n / 10);
        proof {
            lemma_decimal_len_bound((n / 10) as nat);
        }
        w + 1
    }
}

/// The decimal form of a number is never longer than the number itself.
proof fn lemma_decimal_len_bound(n: nat)
    ensures
        decimal(n).len() <= n + 1,
    decreases n,
{
    if n >= 10 {
        lemma_decimal_len_bound(n / 10);
    }
}

/// Appends the timestamp field of `t` to `buf`.
pub fn push_stamp(buf: &mut String, t: u64)
    ensures
        final(buf)@ == old(buf)@ + stamp_field(t as nat),
{
    push_decimal(buf, t);
    let w = decimal_width(t);
    if w < STAMP_WIDTH as u64 {
        push_spaces(buf, STAMP_WIDTH - w as usize);
    }
    assert(spaces(0) =~= Seq::<char>::empty());
    proof {
        reveal_strlit(" ");
    }
    buf.append(" ");
    assert(" "@ =~= seq![' ']);
    assert(final(buf)@ =~= old(buf)@ + stamp_field(t as nat));
}

/// Appends `msg` to `buf`, with the indentation of depth `depth` after each
/// newline of `msg`.
pub fn push_indented_lines(buf: &mut String, msg: &str, depth: usize)
    ensures
        final(buf)@ == old(buf)@ + indent_lines(msg@, indent(depth as nat)),
{
    let ghost base = buf@;
    let ghost ind = indent(depth as nat);
    let n = msg.unicode_len();
    let mut i: usize = 0;
    while i < n
        invariant
            i <= n,
            n == msg@.len(),
            ind == indent(depth as nat),
            buf@ == base + indent_lines(msg@.take(i as int), ind),
        decreases n - i,
    {
        let c = msg.get_char(i);
        let ghost prefix = msg@.take(i as int + 1);
        assert(prefix.drop_last() =~= msg@.take(i as int));
        assert(prefix.last() == c);
        if c == '\n' {
            proof {
                reveal_strlit("\n");
            }
            buf.append("\n");
            assert("\n"@ =~= seq!['\n']);
            push_indent(buf, depth);
            assert(buf@ =~= base + indent_lines(prefix, ind));
        } else {
            buf.append(msg.substring_char(i, i + 1));
            assert(buf@ =~= base + indent_lines(prefix, ind));
        }
        i = i + 1;
    }
    assert(msg@.take(n as int) =~= msg@);
}

/// Appends to `buf` the text of one detail line written at depth `depth`,
/// with the timestamp `stamp` when there is one.
pub fn push_entry(buf: &mut String, depth: usize, stamp: Option<u64>, msg: &str)
    ensures
        final(buf)@ == old(buf)@ + entry(depth as nat, stamp, msg@),
{
    if let Some(t) = stamp {
        push_stamp(buf, t);
    }
    proof {
        reveal_strlit("\n");
    }
    if 0 < depth {
        push_indent(buf, depth);
        push_indented_lines(buf, msg, depth);
    } else {
        // At depth zero no indentation is written, so the message goes in
        // whole, newlines and all.
        proof {
            assert(indent(0) =~= Seq::<char>::empty());
            lemma_indent_lines_empty(msg@);
        }
        buf.append(msg);
    }
    buf.append("\n");
    assert("\n"@ =~= seq!['\n']);
    assert(final(buf)@ =~= old(buf)@ + entry(depth as nat, stamp, msg@));
}

/// With no indentation, writing a message line by line writes it unchanged.
pub proof fn lemma_indent_lines_empty(msg: Seq<char>)
    ensures
        indent_lines(msg, Seq::empty()) == msg,
    decreases msg.len(),
{
    if msg.len() > 0 {
        lemma_indent_lines_empty(msg.drop_last());
        if msg.last() == '\n' {
            assert(msg.drop_last() + seq!['\n'] + Seq::<char>::empty() =~= msg);
        } else {
            assert(msg.drop_last().push(msg.last()) =~= msg);
        }
    }
}

/// A message without newlines is written unchanged, whatever the indentation.
pub proof fn lemma_indent_lines_plain(msg: Seq<char>, ind: Seq<char>)
    requires
        !msg.contains('\n'),
    ensures
        indent_lines(msg, ind) == msg,
    decreases msg.len(),
{
    if msg.len() > 0 {
        assert(!msg.drop_last().contains('\n')) by {
            if msg.drop_last().contains('\n') {
                let k = choose|k: int| 0 <= k < msg.drop_last().len() && msg.drop_last()[k] == '\n';
                assert(msg[k] == '\n');
            }
        }
        lemma_indent_lines_plain(msg.drop_last(), ind);
        assert(msg.last() != '\n') by {
            if msg.last() == '\n' {
                assert(msg[msg.len() - 1] == '\n');
            }
        }
        assert(msg.drop_last().push(msg.last()) =~= msg);
    }
}

/// Writing two pieces of a message one after the other writes the whole.
pub proof fn lemma_indent_lines_concat(a: Seq<char>, b: Seq<char>, ind: Seq<char>)
    ensures
        indent_lines(a + b, ind) == indent_lines(a, ind) + indent_lines(b, ind),
    decreases b.len(),
{
    if b.len() == 0 {
        assert(a + b =~= a);
        assert(indent_lines(a, ind) + indent_lines(b, ind) =~= indent_lines(a, ind));
    } else {
        assert((a + b).drop_last() =~= a + b.drop_last());
        assert((a + b).last() == b.last());
        lemma_indent_lines_concat(a, b.drop_last(), ind);
        if b.last() == '\n' {
            assert(indent_lines(a, ind) + indent_lines(b.drop_last(), ind) + seq!['\n'] + ind
                =~= indent_lines(a, ind) + (indent_lines(b.drop_last(), ind) + seq!['\n'] + ind));
        } else {
            assert((indent_lines(a, ind) + indent_lines(b.drop_last(), ind)).push(b.last())
                =~= indent_lines(a, ind) + indent_lines(b.drop_last(), ind).push(b.last()));
        }
    }
}

/// The layout of a logged line. After its timestamp it starts with exactly
/// `2 * d` spaces at depth `d`; each newline of the message is followed by
/// the same indentation, and a line without newlines is kept as it is; at
/// depth zero no indentation is added and the message is written unchanged.
pub proof fn lemma_entry_indentation(d: nat, stamp: Option<u64>, first: Seq<char>, rest: Seq<char>)
    ensures
        entry(d, stamp, first) == stamp_prefix(stamp) + indent(d) + indent_lines(first, indent(d))
            + seq!['\n'],
        indent(d).len() == 2 * d,
        forall|i: int| 0 <= i < 2 * d ==> #[trigger] indent(d)[i] == ' ',
        !first.contains('\n') ==> indent_lines(first, indent(d)) == first,
        indent_lines(first + seq!['\n'] + rest, indent(d)) == indent_lines(first, indent(d))
            + seq!['\n'] + indent(d) + indent_lines(rest, indent(d)),
        entry(0, stamp, first) == stamp_prefix(stamp) + first + seq!['\n'],
{
    let ind = indent(d);
    if !first.contains('\n') {
        lemma_indent_lines_plain(first, ind);
    }
    lemma_indent_lines_concat(first + seq!['\n'], rest, ind);
    assert((first + seq!['\n']).drop_last() =~= first);
    assert((first + seq!['\n']).last() == '\n');
    assert(indent(0) =~= Seq::<char>::empty());
    lemma_indent_lines_empty(first);
    assert(stamp_prefix(stamp) + Seq::<char>::empty() + first + seq!['\n'] =~= stamp_prefix(stamp)
        + first + seq!['\n']);
}

/// Copies `s` without its trailing white space.
pub fn trimmed(s: &str) -> (r: String)
    ensures
        r@ == trim_end(s@),
{
    let mut k = s.unicode_len();
    assert(s@.take(k as int) =~= s@);
    while k > 0 && is_whitespace(s.get_char(k - 1))
        invariant
            k <= s@.len(),
            trim_end_len(s@.take(k as int)) == trim_end_len(s@),
        decreases k,
    {
        assert(s@.take(k as int).drop_last() =~= s@.take(k - 1));
        k = k - 1;
    }
    assert(s@.take(k as int) =~= s@.take(k as int).take(k as int));
    String::from_str(s.substring_char(0, k))
}

} // verus!
