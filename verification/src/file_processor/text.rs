//! Text building blocks: decimal numerals and line endings.
use vstd::prelude::*;

verus! {

/// The character of a decimal digit.
pub open spec fn digit_char(d: nat) -> char
    recommends
        d < 10,
{
    (d + 48) as char
}

/// The decimal numeral of `n`, without leading zeros.
pub open spec fn decimal(n: nat) -> Seq<char>
    decreases n,
{
    if n < 10 {
        seq![digit_char(n)]
    } else {
        decimal(n / 10).push(digit_char(n % 10))
    }
}

/// Whether `t` ends with a line feed.
pub open spec fn ends_with_newline(t: Seq<char>) -> bool {
    t.len() > 0 && t.last() == '\n'
}

/// `t`, with a line feed added unless it already ends with one.
pub open spec fn line_terminated(t: Seq<char>) -> Seq<char> {
    if ends_with_newline(t) {
        t
    } else {
        t.push('\n')
    }
}

/// Appends a line feed to `out`.
pub fn push_newline(out: &mut String)
    ensures
        final(out)@ == old(out)@.push('\n'),
{
    let nl = "\n";
    proof {
        reveal_strlit("\n");
    }
    out.append(nl);
    assert(out@ =~= old(out)@.push('\n'));
}

/// Whether `s` ends with a line feed.
pub fn string_ends_with_newline(s: &String) -> (res: bool)
    ensures
        res == ends_with_newline(s@),
{
    let t = s.as_str();
    let n = t.unicode_len();
    if n == 0 {
        false
    } else {
        t.get_char(n - 1) == '\n'
    }
}

/// Appends `t` to `out`, then a line feed unless `t` ends with one.
pub fn append_line_terminated(out: &mut String, t: &String)
    ensures
        final(out)@ == old(out)@ + line_terminated(t@),
{
    out.append(t.as_str());
    if !string_ends_with_newline(t) {
        push_newline(out);
    }
    assert(out@ =~= old(out)@ + line_terminated(t@));
}

/// Appends the decimal digit `d` to `out`.
fn push_digit(out: &mut String, d: usize)
    requires
        d < 10,
    ensures
        final(out)@ == old(out)@.push(digit_char(d as nat)),
{
    let digits = "0123456789";
    proof {
        reveal_strlit("0123456789");
    }
    let one = digits.substring_char(d, d + 1);
    out.append(one);
    assert(one@ =~= seq![digit_char(d as nat)]);
    assert(out@ =~= old(out)@.push(digit_char(d as nat)));
}

/// Appends the decimal numeral of `n` to `out`.
pub fn append_decimal(out: &mut String, n: usize)
    ensures
        final(out)@ == old(out)@ + decimal(n as nat),
    decreases n,
{
    if n < 10 {
        push_digit(out, n);
        assert(out@ =~= old(out)@ + decimal(n as nat));
    } else {
        append_decimal(out, n / 10);
        push_digit(out, n % 10);
        assert(out@ =~= old(out)@ + decimal(n as nat));
    }
}

} // verus!
