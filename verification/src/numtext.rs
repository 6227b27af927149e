//! Decimal text for unsigned integers, written and proved here so that
//! formatting functions can state exactly what they return.

use vstd::prelude::*;

verus! {

/// The digit character for a value below ten.
pub open spec fn digit_char(d: int) -> char {
    if d == 0 {
        '0'
    } else if d == 1 {
        '1'
    } else if d == 2 {
        '2'
    } else if d == 3 {
        '3'
    } else if d == 4 {
        '4'
    } else if d == 5 {
        '5'
    } else if d == 6 {
        '6'
    } else if d == 7 {
        '7'
    } else if d == 8 {
        '8'
    } else {
        '9'
    }
}

/// The decimal digits of `n`, most significant first, without leading
/// zeros (`0` itself is the single digit `0`).
pub open spec fn dec_digits(n: nat) -> Seq<char>
    decreases n,
{
    if n < 10 {
        seq![digit_char(n as int)]
    } else {
        dec_digits(n / 10).push(digit_char((n % 10) as int))
    }
}

/// The decimal text of the integer `v`, a minus sign leading when it is
/// negative.
pub open spec fn int_text(v: int) -> Seq<char> {
    if v < 0 {
        seq!['-'] + dec_digits((-v) as nat)
    } else {
        dec_digits(v as nat)
    }
}

/// The one-character text for a value below ten.
fn digit_text(d: u64) -> (r: &'static str)
    requires
        d < 10,
    ensures
        r@ == seq![digit_char(d as int)],
{
    proof {
        reveal_strlit("0");
        reveal_strlit("1");
        reveal_strlit("2");
        reveal_strlit("3");
        reveal_strlit("4");
        reveal_strlit("5");
        reveal_strlit("6");
        reveal_strlit("7");
        reveal_strlit("8");
        reveal_strlit("9");
    }
    let r = if d == 0 {
        "0"
    } else if d == 1 {
        "1"
    } else if d == 2 {
        "2"
    } else if d == 3 {
        "3"
    } else if d == 4 {
        "4"
    } else if d == 5 {
        "5"
    } else if d == 6 {
        "6"
    } else if d == 7 {
        "7"
    } else if d == 8 {
        "8"
    } else {
        "9"
    };
    proof {
        assert(r@ =~= seq![digit_char(d as int)]);
    }
    r
}

/// The decimal text of `n`.
pub fn u64_to_text(n: u64) -> (r: String)
    ensures
        r@ == dec_digits(n as nat),
    decreases n,
{
    if n < 10 {
        digit_text(n).to_owned()
    } else {
        let mut s = u64_to_text(n / 10);
        s.append(digit_text(n % 10));
        proof {
            assert(s@ =~= dec_digits(n as nat));
        }
        s
    }
}

/// Whether `c` is a decimal digit.
pub open spec fn is_digit(c: char) -> bool {
    '0' <= c && c <= '9'
}

/// The number the digit text `s` denotes; meaningful when every
/// character is a digit.
pub open spec fn digits_value(s: Seq<char>) -> int
    decreases s.len(),
{
    if s.len() == 0 {
        0
    } else {
        digits_value(s.drop_last()) * 10 + (s.last() as int - '0' as int)
    }
}

/// Digit text denotes nothing negative.
proof fn lemma_digits_value_nonneg(s: Seq<char>)
    requires
        forall|k: int| 0 <= k < s.len() ==> is_digit(#[trigger] s[k]),
    ensures
        digits_value(s) >= 0,
    decreases s.len(),
{
    if s.len() > 0 {
        assert forall|k: int| 0 <= k < s.drop_last().len() implies is_digit(
            #[trigger] s.drop_last()[k],
        ) by {
            assert(s.drop_last()[k] == s[k]);
        }
        lemma_digits_value_nonneg(s.drop_last());
    }
}

/// Over digit text, a longer prefix never denotes a smaller number.
proof fn lemma_digits_value_monotone(s: Seq<char>, i: int, j: int)
    requires
        0 <= i <= j <= s.len(),
        forall|k: int| 0 <= k < s.len() ==> is_digit(#[trigger] s[k]),
    ensures
        digits_value(s.subrange(0, i)) <= digits_value(s.subrange(0, j)),
    decreases j - i,
{
    if i < j {
        lemma_digits_value_monotone(s, i, j - 1);
        assert forall|k: int| 0 <= k < s.subrange(0, j - 1).len() implies is_digit(
            #[trigger] s.subrange(0, j - 1)[k],
        ) by {
            assert(s.subrange(0, j - 1)[k] == s[k]);
        }
        lemma_digits_value_nonneg(s.subrange(0, j - 1));
        assert(s.subrange(0, j).drop_last() =~= s.subrange(0, j - 1));
        assert(s.subrange(0, j).last() == s[j - 1]);
    }
}

/// Reads `text` as an unsigned decimal number: the empty text, any
/// non-digit, and any value above the `u64` range are refused.
pub fn parse_u64(text: &str) -> (r: Option<u64>)
    ensures
        r matches Some(v) ==> text@.len() > 0 && (forall|i: int|
            0 <= i < text@.len() ==> is_digit(#[trigger] text@[i])) && v == digits_value(text@),
        r is None ==> text@.len() == 0 || (exists|i: int|
            0 <= i < text@.len() && !is_digit(#[trigger] text@[i])) || digits_value(text@)
            > u64::MAX,
{
    let n = text.unicode_len();
    if n == 0 {
        return None;
    }
    let mut i: usize = 0;
    while i < n
        invariant
            0 <= i <= n,
            n == text@.len(),
            forall|k: int| 0 <= k < i ==> is_digit(#[trigger] text@[k]),
        decreases n - i,
    {
        let c = text.get_char(i);
        if c < '0' || c > '9' {
            return None;
        }
        i = i + 1;
    }
    let mut value: u64 = 0;
    let mut j: usize = 0;
    proof {
        assert(text@.subrange(0, 0) =~= Seq::<char>::empty());
    }
    while j < n
        invariant
            0 <= j <= n,
            n == text@.len(),
            forall|k: int| 0 <= k < n ==> is_digit(#[trigger] text@[k]),
            value == digits_value(text@.subrange(0, j as int)),
        decreases n - j,
    {
        proof {
            assert(text@.subrange(0, j + 1).drop_last() =~= text@.subrange(0, j as int));
            assert(text@.subrange(0, j + 1).last() == text@[j as int]);
        }
        let c = text.get_char(j);
        let d: u64 = (c as u32 - '0' as u32) as u64;
        if value > (u64::MAX - d) / 10 {
            proof {
                lemma_digits_value_monotone(text@, j + 1, n as int);
                assert(text@.subrange(0, n as int) =~= text@);
            }
            return None;
        }
        value = value * 10 + d;
        j = j + 1;
    }
    proof {
        assert(text@.subrange(0, n as int) =~= text@);
    }
    Some(value)
}

/// The digit characters carry their values.
proof fn lemma_digit_char_value(d: int)
    requires
        0 <= d < 10,
    ensures
        is_digit(digit_char(d)),
        digit_char(d) as int - '0' as int == d,
{
}

/// Every character of a number's decimal text is a digit, and reading
/// the text back gives the number: printing and parsing are inverse.
pub proof fn lemma_decimal_round_trip(n: u64)
    ensures
        forall|i: int|
            0 <= i < dec_digits(n as nat).len() ==> is_digit(#[trigger] dec_digits(n as nat)[i]),
        digits_value(dec_digits(n as nat)) == n,
    decreases n,
{
    if n < 10 {
        lemma_digit_char_value(n as int);
        let s = dec_digits(n as nat);
        assert(s =~= seq![digit_char(n as int)]);
        assert(s.drop_last() =~= Seq::<char>::empty());
        assert(digits_value(s.drop_last()) == 0);
        assert(s.last() == digit_char(n as int));
        assert(digits_value(s) == digits_value(s.drop_last()) * 10 + (s.last() as int
            - '0' as int));
    } else {
        lemma_decimal_round_trip(n / 10);
        lemma_digit_char_value((n % 10) as int);
        let s = dec_digits(n as nat);
        assert(s == dec_digits((n / 10) as nat).push(digit_char((n % 10) as int)));
        assert(s.drop_last() =~= dec_digits((n / 10) as nat));
        assert(s.last() == digit_char((n % 10) as int));
        assert(digits_value(s) == digits_value(s.drop_last()) * 10 + (s.last() as int
            - '0' as int));
        assert forall|i: int| 0 <= i < s.len() implies is_digit(#[trigger] s[i]) by {
            if i < s.len() - 1 {
                assert(s[i] == dec_digits((n / 10) as nat)[i]);
            }
        }
    }
}

/// The decimal text of `n`, a minus sign leading when it is negative.
pub fn i64_to_text(n: i64) -> (r: String)
    ensures
        r@ == int_text(n as int),
{
    if n < 0 {
        let mut s = "-".to_owned();
        let magnitude: u64 = if n == i64::MIN {
            9223372036854775808u64
        } else {
            (-n) as u64
        };
        s.append(u64_to_text(magnitude).as_str());
        proof {
            reveal_strlit("-");
            assert(s@ =~= int_text(n as int));
        }
        s
    } else {
        u64_to_text(n as u64)
    }
}

} // verus!
