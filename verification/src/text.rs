//! Exact text helpers: decimal rendering and parsing, and small string
//! transformations, each pinned to a spec-level definition.

use vstd::prelude::*;

verus! {

/// The decimal digit character of one digit value.
pub open spec fn digit_char(d: nat) -> char {
    if d == 0 {
        '0'
    } else if d == 1 {
        '1'
    } else if d == 2 {
        '2'
    } else if d == 3 {
        '3'
    } else if d == 4 {
        '4'
    } else if d == 5 {
        '5'
    } else if d == 6 {
        '6'
    } else if d == 7 {
        '7'
    } else if d == 8 {
        '8'
    } else {
        '9'
    }
}

/// The decimal rendering of a natural number, most significant digit
/// first, with no leading zeros.
pub open spec fn u64_digits(n: nat) -> Seq<char>
    decreases n,
{
    if n < 10 {
        seq![digit_char(n)]
    } else {
        u64_digits(n / 10).push(digit_char(n % 10))
    }
}

/// The decimal rendering of a signed number: a minus sign, then the
/// digits of the magnitude.
pub open spec fn i64_digits(n: int) -> Seq<char> {
    if n < 0 {
        seq!['-'] + u64_digits((-n) as nat)
    } else {
        u64_digits(n as nat)
    }
}

/// Append one decimal digit character.
fn push_digit(out: &mut String, d: u64)
    requires
        d < 10,
    ensures
        final(out)@ == old(out)@ + seq![digit_char(d as nat)],
{
    proof {
        reveal_strlit("0");
        reveal_strlit("1");
        reveal_strlit("2");
        reveal_strlit("3");
        reveal_strlit("4");
        reveal_strlit("5");
        reveal_strlit("6");
        reveal_strlit("7");
        reveal_strlit("8");
        reveal_strlit("9");
    }
    if d == 0 {
        out.append("0");
    } else if d == 1 {
        out.append("1");
    } else if d == 2 {
        out.append("2");
    } else if d == 3 {
        out.append("3");
    } else if d == 4 {
        out.append("4");
    } else if d == 5 {
        out.append("5");
    } else if d == 6 {
        out.append("6");
    } else if d == 7 {
        out.append("7");
    } else if d == 8 {
        out.append("8");
    } else {
        out.append("9");
    }
    proof {
        assert(final(out)@ =~= old(out)@ + seq![digit_char(d as nat)]);
    }
}

/// Append the decimal rendering of an unsigned number.
pub fn push_u64(out: &mut String, n: u64)
    ensures
        final(out)@ == old(out)@ + u64_digits(n as nat),
    decreases n,
{
    if n >= 10 {
        push_u64(out, n / 10);
        push_digit(out, n % 10);
        proof {
            assert(old(out)@ + u64_digits((n / 10) as nat) + seq![digit_char((n % 10) as nat)]
                =~= old(out)@ + u64_digits(n as nat));
        }
    } else {
        push_digit(out, n);
    }
}

/// Append the decimal rendering of a signed number.
pub fn push_i64(out: &mut String, n: i64)
    ensures
        final(out)@ == old(out)@ + i64_digits(n as int),
{
    if n < 0 {
        proof {
            reveal_strlit("-");
        }
        out.append("-");
        let magnitude: u64 = ((-(n as i128)) as u64);
        push_u64(out, magnitude);
        proof {
            assert(final(out)@ =~= old(out)@ + i64_digits(n as int));
        }
    } else {
        push_u64(out, n as u64);
    }
}

/// The decimal rendering of an unsigned number, as a fresh string.
pub fn render_u64(n: u64) -> (r: String)
    ensures
        r@ == u64_digits(n as nat),
{
    let mut out = String::new();
    push_u64(&mut out, n);
    proof {
        assert(out@ =~= u64_digits(n as nat));
    }
    out
}

/// The decimal rendering of a signed number, as a fresh string.
pub fn render_i64(n: i64) -> (r: String)
    ensures
        r@ == i64_digits(n as int),
{
    let mut out = String::new();
    push_i64(&mut out, n);
    proof {
        assert(out@ =~= i64_digits(n as int));
    }
    out
}

/// A string with every occurrence of one character removed.
pub open spec fn without_char(s: Seq<char>, c: char) -> Seq<char>
    decreases s.len(),
{
    if s.len() == 0 {
        Seq::empty()
    } else if s.last() == c {
        without_char(s.drop_last(), c)
    } else {
        without_char(s.drop_last(), c).push(s.last())
    }
}

/// A string with every comma removed: the pieces of a comma-separated
/// list, concatenated.
pub open spec fn without_commas(s: Seq<char>) -> Seq<char> {
    without_char(s, ',')
}

/// Append `s` with every occurrence of `c` removed.
#[verifier::loop_isolation(false)]
pub fn push_without_char(out: &mut String, s: &str, c: char)
    ensures
        final(out)@ == old(out)@ + without_char(s@, c),
{
    let len = s.unicode_len();
    let mut i: usize = 0;
    while i < len
        invariant
            len == s@.len(),
            i <= len,
            out@ == old(out)@ + without_char(s@.take(i as int), c),
        decreases len - i,
    {
        let current = s.get_char(i);
        proof {
            assert(s@.take(i as int + 1).drop_last() =~= s@.take(i as int));
            assert(s@.take(i as int + 1).last() == s@[i as int]);
        }
        if current != c {
            let piece = s.substring_char(i, i + 1);
            proof {
                assert(piece@ =~= seq![s@[i as int]]);
            }
            out.append(piece);
            proof {
                assert(out@ =~= old(out)@ + without_char(s@.take(i as int + 1), c));
            }
        }
        i = i + 1;
    }
    proof {
        assert(s@.take(len as int) =~= s@);
    }
}

/// Append `s` with every comma removed.
pub fn push_without_commas(out: &mut String, s: &str)
    ensures
        final(out)@ == old(out)@ + without_commas(s@),
{
    push_without_char(out, s, ',');
}

/// Append a text field value framed in double quotes.  The value is
/// embedded as it stands: the rendering is exact for values free of
/// quote and backslash characters, which the pipeline's field names and
/// states are.
pub fn push_quoted(out: &mut String, s: &str)
    ensures
        final(out)@ == old(out)@ + seq!['"'] + s@ + seq!['"'],
{
    proof {
        reveal_strlit("\"");
    }
    out.append("\"");
    out.append(s);
    out.append("\"");
    proof {
        assert(final(out)@ =~= old(out)@ + seq!['"'] + s@ + seq!['"']);
    }
}

/// The number a digit string denotes, most significant digit first.
pub open spec fn digits_value(s: Seq<char>) -> nat
    decreases s.len(),
{
    if s.len() == 0 {
        0
    } else {
        digits_value(s.drop_last()) * 10 + char_digit(s.last())
    }
}

/// The value of one digit character; other characters count zero.
pub open spec fn char_digit(c: char) -> nat {
    if '0' <= c <= '9' {
        (c as int - '0' as int) as nat
    } else {
        0
    }
}

/// Whether every character is a decimal digit.
pub open spec fn all_digits(s: Seq<char>) -> bool {
    forall|i: int| 0 <= i < s.len() ==> '0' <= #[trigger] s[i] <= '9'
}

/// A longer digit prefix never denotes a smaller number.
pub proof fn lemma_digits_value_prefix_le(s: Seq<char>, n: int)
    requires
        0 <= n <= s.len(),
    ensures
        digits_value(s.take(n)) <= digits_value(s),
    decreases s.len() - n,
{
    if n < s.len() {
        lemma_digits_value_prefix_le(s, n + 1);
        assert(s.take(n + 1).drop_last() =~= s.take(n));
        assert(digits_value(s.take(n + 1))
            == digits_value(s.take(n)) * 10 + char_digit(s.take(n + 1).last()));
        assert(digits_value(s.take(n)) <= digits_value(s.take(n)) * 10) by (nonlinear_arith);
    } else {
        assert(s.take(n) =~= s);
    }
}

/// The decimal rendering of a number consists of digits and parses back
/// to the same number.
pub proof fn lemma_u64_digits_value(n: nat)
    ensures
        all_digits(u64_digits(n)),
        digits_value(u64_digits(n)) == n,
        u64_digits(n).len() > 0,
    decreases n,
{
    if n < 10 {
        let single = u64_digits(n);
        assert(single =~= seq![digit_char(n)]);
        assert(single.drop_last() =~= Seq::<char>::empty());
        assert(single.last() == digit_char(n));
        assert(digits_value(single)
            == digits_value(single.drop_last()) * 10 + char_digit(single.last()));
        assert(digits_value(single.drop_last()) == 0);
        assert(char_digit(digit_char(n)) == n);
    } else {
        lemma_u64_digits_value(n / 10);
        let whole = u64_digits(n);
        let head = u64_digits(n / 10);
        assert(whole == head.push(digit_char(n % 10)));
        assert(whole.drop_last() =~= head);
        assert(whole.last() == digit_char(n % 10));
        assert(char_digit(digit_char(n % 10)) == n % 10);
        assert(digits_value(whole) == digits_value(head) * 10 + n % 10);
        assert((n / 10) * 10 + n % 10 == n) by (nonlinear_arith);
        assert forall|i: int| 0 <= i < whole.len() implies '0' <= #[trigger] whole[i] <= '9' by {
            if i < head.len() {
                assert(whole[i] == head[i]);
            }
        }
    }
}

/// Parse a decimal digit string into a number.  Succeeds exactly on a
/// non-empty all-digit string whose value fits `u64`.
#[verifier::loop_isolation(false)]
pub fn parse_u64(s: &str) -> (r: Option<u64>)
    ensures
        r is Some <==> (s@.len() > 0 && all_digits(s@) && digits_value(s@) <= u64::MAX),
        r is Some ==> r->0 as nat == digits_value(s@),
{
    let len = s.unicode_len();
    if len == 0 {
        return None;
    }
    let mut value: u64 = 0;
    let mut i: usize = 0;
    while i < len
        invariant
            len == s@.len(),
            i <= len,
            all_digits(s@.take(i as int)),
            value as nat == digits_value(s@.take(i as int)),
        decreases len - i,
    {
        let c = s.get_char(i);
        proof {
            assert(s@.take(i as int + 1).drop_last() =~= s@.take(i as int));
            assert(s@.take(i as int + 1).last() == s@[i as int]);
        }
        if c < '0' || c > '9' {
            return None;
        }
        let d: u32 = (c as u32) - ('0' as u32);
        if value > (u64::MAX - d as u64) / 10 {
            proof {
                let dv = d as int;
                assert(value * 10 + dv > u64::MAX) by (nonlinear_arith)
                    requires
                        value > (u64::MAX - dv) / 10,
                        0 <= dv < 10,
                        0 <= value,
                ;
                assert(digits_value(s@.take(i as int + 1)) > u64::MAX);
                lemma_digits_value_prefix_le(s@, i as int + 1);
            }
            return None;
        }
        proof {
            let dv = d as int;
            assert(value * 10 + dv <= u64::MAX) by (nonlinear_arith)
                requires
                    value <= (u64::MAX - dv) / 10,
                    0 <= dv < 10,
                    0 <= value,
            ;
        }
        value = value * 10 + d as u64;
        proof {
            assert(all_digits(s@.take(i as int + 1)));
        }
        i = i + 1;
    }
    proof {
        assert(s@.take(len as int) =~= s@);
    }
    Some(value)
}

} // verus!
