//! Decimal numerals: writing numbers and reading them back.
use vstd::prelude::*;
use vstd::string::StringExecFns;

use crate::text;

verus! {

/// The digit that stands for `d`.
pub open spec fn digit_char(d: nat) -> char {
    (('0' as u32) + d) as u32 as char
}

/// Is the character one of the digits `0` to `9`?
pub open spec fn is_digit(c: char) -> bool {
    '0' <= c && c <= '9'
}

/// The number that a digit stands for.
pub open spec fn digit_value(c: char) -> nat {
    (c as u32 - '0' as u32) as nat
}

/// The numeral of `n`: no sign, no leading zero but for `0` itself.
pub open spec fn decimal(n: nat) -> Seq<char>
    decreases n,
{
    if n < 10 {
        seq![digit_char(n)]
    } else {
        decimal(n / 10).push(digit_char(n % 10))
    }
}

/// Does the text hold digits alone?
pub open spec fn all_digits(s: Seq<char>) -> bool {
    forall|i: int| 0 <= i < s.len() ==> is_digit(#[trigger] s[i])
}

/// The number that a text of digits stands for.
pub open spec fn numeral_value(s: Seq<char>) -> nat
    decreases s.len(),
{
    if s.len() == 0 {
        0
    } else {
        numeral_value(s.drop_last()) * 10 + digit_value(s.last())
    }
}

/// `s` behind a plus sign, where it starts with one.
pub open spec fn unsigned_part(s: Seq<char>) -> Seq<char> {
    if s.len() > 0 && s[0] == '+' {
        s.drop_first()
    } else {
        s
    }
}

/// The number that `s` is a numeral of: an optional plus sign, then one or
/// more digits and nothing else, of a value that fits.
pub open spec fn read_u32(s: Seq<char>) -> Option<u32> {
    let digits = unsigned_part(s);
    if digits.len() > 0 && all_digits(digits) && numeral_value(digits) <= u32::MAX {
        Some(numeral_value(digits) as u32)
    } else {
        None
    }
}

/// A longer numeral does not stand for less.
proof fn lemma_prefix_value(s: Seq<char>, k: int)
    requires
        0 <= k <= s.len(),
    ensures
        numeral_value(s.take(k)) <= numeral_value(s),
    decreases s.len(),
{
    if k < s.len() {
        assert(s.drop_last().take(k) =~= s.take(k));
        lemma_prefix_value(s.drop_last(), k);
    } else {
        assert(s.take(k) =~= s);
    }
}

/// A numeral is made of digits and stands for its number.
pub proof fn lemma_decimal(n: nat)
    ensures
        decimal(n).len() > 0,
        all_digits(decimal(n)),
        numeral_value(decimal(n)) == n,
    decreases n,
{
    if n < 10 {
        let s = seq![digit_char(n)];
        assert(s.drop_last() =~= Seq::<char>::empty());
        assert(numeral_value(s.drop_last()) == 0);
    } else {
        lemma_decimal(n / 10);
        let s = decimal(n);
        assert(s.drop_last() =~= decimal(n / 10));
        assert forall|i: int| 0 <= i < s.len() implies is_digit(#[trigger] s[i]) by {
            if i < s.len() - 1 {
                assert(s[i] == decimal(n / 10)[i]);
            }
        }
    }
}

/// A text of digits has no white space to trim and holds no other character.
pub proof fn lemma_digits_plain(s: Seq<char>)
    requires
        s.len() > 0,
        all_digits(s),
    ensures
        text::trimmed(s) == s,
        forall|c: char| !is_digit(c) ==> #[trigger] text::find_from(s, seq![c], 0) is None,
{
    assert(is_digit(s[0]));
    assert(text::trim_start(s) == s);
    assert(is_digit(s.last()));
    assert forall|c: char| !is_digit(c) implies #[trigger] text::find_from(s, seq![c], 0) is None by {
        text::lemma_find_from(s, seq![c], 0);
        match text::find_from(s, seq![c], 0) {
            Some(i) => {
                assert(text::occurs_at(s, seq![c], i));
                assert(s.subrange(i, i + 1)[0] == s[i]);
                assert(seq![c][0] == c);
            },
            None => {},
        }
    }
}

/// Reading a numeral gives its number back.
pub proof fn law_read_of_decimal(n: u32)
    ensures
        read_u32(text::trimmed(decimal(n as nat))) == Some(n),
{
    lemma_decimal(n as nat);
    lemma_digits_plain(decimal(n as nat));
    assert(is_digit(decimal(n as nat)[0]));
}

/// The digit that stands for `d`, as a text.
fn digit_text(d: u64) -> (r: &'static str)
    requires
        d < 10,
    ensures
        r@ == seq![digit_char(d as nat)],
{
    proof {
        reveal_strlit("0");
        reveal_strlit("1");
        reveal_strlit("2");
        reveal_strlit("3");
        reveal_strlit("4");
        reveal_strlit("5");
        reveal_strlit("6");
        reveal_strlit("7");
        reveal_strlit("8");
        reveal_strlit("9");
    }
    if d == 0 {
        "0"
    } else if d == 1 {
        "1"
    } else if d == 2 {
        "2"
    } else if d == 3 {
        "3"
    } else if d == 4 {
        "4"
    } else if d == 5 {
        "5"
    } else if d == 6 {
        "6"
    } else if d == 7 {
        "7"
    } else if d == 8 {
        "8"
    } else {
        "9"
    }
}

/// The numeral of `n`.
pub fn decimal_text(n: u64) -> (r: String)
    ensures
        r@ == decimal(n as nat),
    decreases n,
{
    if n < 10 {
        digit_text(n).to_owned()
    } else {
        let mut out: String = decimal_text(n / 10);
        out.append(digit_text(n % 10));
        proof {
            assert(out@ =~= decimal((n / 10) as nat).push(digit_char((n % 10) as nat)));
        }
        out
    }
}

/// The number that `s` is a numeral of.
pub fn parse_u32(s: &str) -> (r: Option<u32>)
    ensures
        r == read_u32(s@),
{
    let cs: Vec<char> = text::chars_of(s);
    let mut start: usize = 0;
    if cs.len() > 0 && cs[0] == '+' {
        start = 1;
    }
    let ghost digits = unsigned_part(s@);
    proof {
        assert(digits =~= s@.skip(start as int));
    }
    if start == cs.len() {
        return None;
    }
    let mut value: u64 = 0;
    let mut i: usize = start;
    proof {
        assert(digits.take(0) =~= Seq::<char>::empty());
    }
    while i < cs.len()
        invariant
            cs@ == s@,
            start <= i <= cs.len(),
            digits == unsigned_part(s@),
            digits == s@.skip(start as int),
            digits.len() == cs.len() - start,
            value == numeral_value(digits.take(i - start)),
            value <= u32::MAX,
            forall|j: int| 0 <= j < i - start ==> is_digit(#[trigger] digits[j]),
        decreases cs.len() - i,
    {
        let c: char = cs[i];
        proof {
            assert(digits[i - start] == c);
        }
        if !('0' <= c && c <= '9') {
            return None;
        }
        value = value * 10 + (c as u32 - '0' as u32) as u64;
        proof {
            let next = digits.take(i + 1 - start);
            assert(next.drop_last() =~= digits.take(i - start));
            assert(next.last() == c);
            lemma_prefix_value(digits, i + 1 - start);
        }
        if value > 0xffff_ffff {
            return None;
        }
        i = i + 1;
    }
    proof {
        assert(digits.take(i - start) =~= digits);
    }
    Some(value as u32)
}

/// A digit behind a numeral counts ten times what stands before it and its own
/// value, as long as the number fits; a plus sign in front changes nothing.
pub proof fn law_numeral_is_read(s: Seq<char>, n: u32, d: u32)
    requires
        read_u32(s) == Some(n),
        d < 10,
    ensures
        n * 10 + d <= u32::MAX ==> read_u32(s.push(digit_char(d as nat))) == Some(
            (n * 10 + d) as u32,
        ),
        n * 10 + d > u32::MAX ==> read_u32(s.push(digit_char(d as nat))) is None,
        s[0] != '+' ==> read_u32(seq!['+'] + s) == Some(n),
{
    let c = digit_char(d as nat);
    let digits = unsigned_part(s);
    let longer = s.push(c);
    assert(s.len() > 0);
    assert(unsigned_part(longer) =~= digits.push(c));
    assert(digits.push(c).drop_last() =~= digits);
    assert(is_digit(c));
    assert(digit_value(c) == d);
    let signed = seq!['+'] + s;
    assert(signed.drop_first() =~= s);
    assert forall|i: int| 0 <= i < digits.push(c).len() implies is_digit(
        #[trigger] digits.push(c)[i],
    ) by {
        if i < digits.len() {
            assert(digits.push(c)[i] == digits[i]);
        }
    }
}

/// What holds a character that is no digit is no numeral, but for a plus sign
/// in front; and neither is what holds no digit at all.
pub proof fn law_no_numeral(s: Seq<char>, i: int)
    ensures
        0 <= i < s.len() && !('0' <= s[i] && s[i] <= '9') && !(i == 0 && s[i] == '+') ==> read_u32(
            s,
        ) is None,
        s.len() == 0 || (s.len() == 1 && s[0] == '+') ==> read_u32(s) is None,
{
    let digits = unsigned_part(s);
    if 0 <= i < s.len() && !('0' <= s[i] && s[i] <= '9') && !(i == 0 && s[i] == '+') {
        if s[0] == '+' {
            assert(digits[i - 1] == s[i]);
        } else {
            assert(digits[i] == s[i]);
        }
    }
}

/// A number is written in digits, without a leading zero but for zero itself,
/// and the digits stand for it.
pub proof fn law_decimal_is_plain(n: nat)
    ensures
        decimal(n).len() > 0,
        all_digits(decimal(n)),
        numeral_value(decimal(n)) == n,
        n > 0 ==> decimal(n)[0] != '0',
        n < 10 ==> decimal(n).len() == 1,
    decreases n,
{
    lemma_decimal(n);
    if n >= 10 {
        law_decimal_is_plain(n / 10);
        assert(decimal(n)[0] == decimal(n / 10)[0]);
    }
}

} // verus!
