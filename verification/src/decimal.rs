//! Whole numbers as decimal text, in both directions.
//!
//! `integer_text` is the one canonical way to write a whole number: no sign for
//! a number that is not negative, no `+`, no leading zero, and never `-0`.
//! `integer_of_text` reads exactly those texts back.

use vstd::prelude::*;
use crate::text::chars_of;

verus! {

/// Whether `c` is one of the ten decimal digits.
pub open spec fn is_digit(c: char) -> bool {
    '0' <= c <= '9'
}

/// The number that the digit `c` stands for.
pub open spec fn digit_value(c: char) -> nat {
    (c as int - '0' as int) as nat
}

/// The digit that stands for `d`, for `d` below ten.
pub open spec fn digit_char(d: nat) -> char {
    if d == 0 {
        '0'
    } else if d == 1 {
        '1'
    } else if d == 2 {
        '2'
    } else if d == 3 {
        '3'
    } else if d == 4 {
        '4'
    } else if d == 5 {
        '5'
    } else if d == 6 {
        '6'
    } else if d == 7 {
        '7'
    } else if d == 8 {
        '8'
    } else {
        '9'
    }
}

/// Whether `s` is one digit or more, and nothing else.
pub open spec fn is_digits(s: Seq<char>) -> bool {
    &&& s.len() > 0
    &&& forall|i: int| 0 <= i < s.len() ==> is_digit(#[trigger] s[i])
}

/// The number that the digits `s` write, read as decimal.
pub open spec fn digits_value(s: Seq<char>) -> nat
    decreases s.len(),
{
    if s.len() == 0 {
        0
    } else {
        10 * digits_value(s.drop_last()) + digit_value(s.last())
    }
}

/// The digits of `n`, without a leading zero.
pub open spec fn natural_text(n: nat) -> Seq<char>
    decreases n,
{
    if n < 10 {
        seq![digit_char(n)]
    } else {
        natural_text(n / 10).push(digit_char(n % 10))
    }
}

/// The canonical decimal text of `v`.
pub open spec fn integer_text(v: int) -> Seq<char> {
    if v < 0 {
        seq!['-'] + natural_text((-v) as nat)
    } else {
        natural_text(v as nat)
    }
}

/// Whether `s` is digits without a leading zero (`0` itself is).
pub open spec fn is_canonical_natural(s: Seq<char>) -> bool {
    &&& is_digits(s)
    &&& s[0] == '0' ==> s.len() == 1
}

/// The number that `s` writes, if `s` is the canonical text of one.
pub open spec fn integer_of_text(s: Seq<char>) -> Option<int> {
    if is_canonical_natural(s) {
        Some(digits_value(s) as int)
    } else if s.len() > 0 && s[0] == '-' && is_canonical_natural(s.skip(1)) && digits_value(
        s.skip(1),
    ) != 0 {
        Some(-(digits_value(s.skip(1)) as int))
    } else {
        None
    }
}

/// The number that `s` writes for a reader that takes one `+` in front and
/// any number of leading zeros, and no sign otherwise.
pub open spec fn natural_of_text(s: Seq<char>) -> Option<nat> {
    let digits = if s.len() > 0 && s[0] == '+' {
        s.skip(1)
    } else {
        s
    };
    if is_digits(digits) {
        Some(digits_value(digits))
    } else {
        None
    }
}

/// A longer run of digits writes no smaller a number than its beginning.
proof fn lemma_digits_value_grows(s: Seq<char>, k: int)
    requires
        0 <= k <= s.len(),
    ensures
        digits_value(s.take(k)) <= digits_value(s),
    decreases s.len() - k,
{
    if k < s.len() {
        assert(s.drop_last().take(k) =~= s.take(k));
        lemma_digits_value_grows(s.drop_last(), k);
    } else {
        assert(s.take(k) =~= s);
    }
}

/// The digits of `n` are canonical and write `n`.
proof fn lemma_natural_text_reads_back(n: nat)
    ensures
        is_canonical_natural(natural_text(n)),
        digits_value(natural_text(n)) == n,
        natural_text(n)[0] == '0' ==> n == 0,
    decreases n,
{
    let text = natural_text(n);
    if n < 10 {
        assert(text.drop_last() =~= Seq::<char>::empty());
        assert(digits_value(text.drop_last()) == 0);
    } else {
        lemma_natural_text_reads_back(n / 10);
        assert(text.drop_last() =~= natural_text(n / 10));
        assert(text[0] == natural_text(n / 10)[0]);
    }
}

/// Canonical digits are the digits of the number they write.
proof fn lemma_canonical_natural_is_its_text(s: Seq<char>)
    requires
        is_canonical_natural(s),
    ensures
        natural_text(digits_value(s)) == s,
    decreases s.len(),
{
    let last = s.last();
    assert(is_digit(last));
    assert(digit_char(digit_value(last)) == last);
    if s.len() == 1 {
        assert(s.drop_last() =~= Seq::<char>::empty());
        assert(digits_value(s.drop_last()) == 0);
        assert(natural_text(digits_value(s)) =~= s);
    } else {
        let front = s.drop_last();
        assert(is_digit(s[0]));
        assert(front[0] == s[0]);
        assert(is_canonical_natural(front)) by {
            assert forall|i: int| 0 <= i < front.len() implies is_digit(#[trigger] front[i]) by {
                assert(front[i] == s[i]);
            }
        }
        lemma_canonical_natural_is_its_text(front);
        lemma_digits_value_grows(front, 1);
        assert(front.take(1).drop_last() =~= Seq::<char>::empty());
        assert(digits_value(front.take(1).drop_last()) == 0);
        assert(digits_value(front.take(1)) == digit_value(front[0]));
        assert(digits_value(front) >= 1);
        assert(natural_text(digits_value(s)) =~= s);
    }
}

/// Writing a whole number and reading the text gives the number back.
pub proof fn law_integer_text_reads_back(v: int)
    ensures
        integer_of_text(integer_text(v)) == Some(v),
{
    if v < 0 {
        let digits = natural_text((-v) as nat);
        lemma_natural_text_reads_back((-v) as nat);
        let text = integer_text(v);
        assert(text.skip(1) =~= digits);
        assert(text[0] == '-');
        assert(!is_digit('-'));
    } else {
        lemma_natural_text_reads_back(v as nat);
    }
}

/// A text that reads as a whole number is the canonical text of that number.
pub proof fn law_read_text_is_canonical(s: Seq<char>)
    requires
        integer_of_text(s) is Some,
    ensures
        integer_text(integer_of_text(s)->0) == s,
{
    if is_canonical_natural(s) {
        lemma_canonical_natural_is_its_text(s);
    } else {
        lemma_canonical_natural_is_its_text(s.skip(1));
        assert(seq!['-'] + s.skip(1) =~= s);
    }
}

/// The text of one digit.
fn digit_str(d: u64) -> (text: &'static str)
    requires
        d < 10,
    ensures
        text@ == seq![digit_char(d as nat)],
{
    proof {
        reveal_strlit("0");
        reveal_strlit("1");
        reveal_strlit("2");
        reveal_strlit("3");
        reveal_strlit("4");
        reveal_strlit("5");
        reveal_strlit("6");
        reveal_strlit("7");
        reveal_strlit("8");
        reveal_strlit("9");
    }
    let text = if d == 0 {
        "0"
    } else if d == 1 {
        "1"
    } else if d == 2 {
        "2"
    } else if d == 3 {
        "3"
    } else if d == 4 {
        "4"
    } else if d == 5 {
        "5"
    } else if d == 6 {
        "6"
    } else if d == 7 {
        "7"
    } else if d == 8 {
        "8"
    } else {
        "9"
    };
    assert(text@ =~= seq![digit_char(d as nat)]);
    text
}

/// Appends the digits of `n` to `out`.
pub fn push_natural(out: &mut String, n: u64)
    ensures
        final(out)@ == old(out)@ + natural_text(n as nat),
    decreases n,
{
    if n >= 10 {
        push_natural(out, n / 10);
    }
    out.append(digit_str(n % 10));
    proof {
        if n >= 10 {
            assert(old(out)@ + natural_text(n as nat / 10) + seq![digit_char(n as nat % 10)]
                =~= old(out)@ + natural_text(n as nat));
        }
    }
}

/// The canonical decimal text of `v`.
pub fn integer_string(v: i64) -> (text: String)
    ensures
        text@ == integer_text(v as int),
{
    if v < 0 {
        let magnitude: u64 = (-(v + 1)) as u64 + 1;
        let mut text = String::from_str("-");
        proof {
            reveal_strlit("-");
            assert("-"@ =~= seq!['-']);
        }
        push_natural(&mut text, magnitude);
        text
    } else {
        let mut text = String::new();
        push_natural(&mut text, v as u64);
        assert(Seq::<char>::empty() + natural_text(v as nat) =~= natural_text(v as nat));
        text
    }
}

/// Reads the digits that `chars` holds from position `from` to its end.
///
/// `None` where they are not all digits, where there is none, or where the
/// number is above `limit`.
fn read_digits(chars: &Vec<char>, from: usize, limit: u64) -> (value: Option<u64>)
    requires
        from <= chars.len(),
    ensures
        value == if is_digits(chars@.skip(from as int)) && digits_value(chars@.skip(from as int))
            <= limit {
            Some(digits_value(chars@.skip(from as int)) as u64)
        } else {
            None
        },
{
    let ghost tail = chars@.skip(from as int);
    if from == chars.len() {
        return None;
    }
    let mut total: u64 = 0;
    let mut at: usize = from;
    proof {
        assert(tail.take(0) =~= Seq::<char>::empty());
    }
    while at < chars.len()
        invariant
            from <= at <= chars.len(),
            tail == chars@.skip(from as int),
            total <= limit,
            total == digits_value(tail.take(at - from)),
            forall|j: int| 0 <= j < at - from ==> is_digit(#[trigger] tail[j]),
        decreases chars.len() - at,
    {
        let c = chars[at];
        proof {
            assert(tail[at - from] == c);
        }
        if !('0' <= c && c <= '9') {
            return None;
        }
        let digit: u64 = (c as u32 - '0' as u32) as u64;
        proof {
            let longer = tail.take(at - from + 1);
            assert(longer.drop_last() =~= tail.take(at - from));
            assert(longer.last() == c);
            assert(digits_value(longer) == 10 * total + digit);
            lemma_digits_value_grows(tail, at - from + 1);
        }
        if digit > limit || total > (limit - digit) / 10 {
            return None;
        }
        total = total * 10 + digit;
        at += 1;
    }
    proof {
        assert(tail.take(at - from) =~= tail);
    }
    Some(total)
}

/// Reads `s` as the canonical text of a whole number that fits in 64 bits.
pub fn parse_integer(s: &str) -> (value: Option<i64>)
    ensures
        value == match integer_of_text(s@) {
            Some(v) => if i64::MIN <= v <= i64::MAX {
                Some(v as i64)
            } else {
                None
            },
            None => None,
        },
{
    let chars = chars_of(s);
    if chars.len() == 0 {
        return None;
    }
    let negative = chars[0] == '-';
    let from: usize = if negative {
        1
    } else {
        0
    };
    proof {
        assert(chars@.skip(0) =~= chars@);
        assert(!is_digit('-'));
        if from < chars.len() {
            assert(chars@.skip(from as int)[0] == chars@[from as int]);
        }
    }
    if from == chars.len() {
        return None;
    }
    if chars[from] == '0' && chars.len() - from > 1 {
        return None;
    }
    match read_digits(&chars, from, 0x8000_0000_0000_0000u64) {
        None => None,
        Some(magnitude) => {
            if negative {
                if magnitude == 0 {
                    None
                } else if magnitude == 0x8000_0000_0000_0000u64 {
                    Some(i64::MIN)
                } else {
                    Some(-(magnitude as i64))
                }
            } else if magnitude == 0x8000_0000_0000_0000u64 {
                None
            } else {
                Some(magnitude as i64)
            }
        },
    }
}

/// Reads `s` as a number of 32 bits without sign: digits, with leading zeros
/// or one `+` in front if it has them.
pub fn parse_u32(s: &str) -> (value: Option<u32>)
    ensures
        value == match natural_of_text(s@) {
            Some(n) => if n <= u32::MAX {
                Some(n as u32)
            } else {
                None
            },
            None => None,
        },
{
    let chars = chars_of(s);
    let from: usize = if chars.len() > 0 && chars[0] == '+' {
        1
    } else {
        0
    };
    proof {
        assert(chars@.skip(0) =~= chars@);
    }
    match read_digits(&chars, from, 0xFFFF_FFFFu64) {
        None => None,
        Some(n) => Some(n as u32),
    }
}

} // verus!
