//! Reading a version number from text.

use vstd::prelude::*;

verus! {

/// Whether a character is one of the ten digits.
pub open spec fn is_digit(c: char) -> bool {
    '0' <= c && c <= '9'
}

/// The number that a digit stands for.
pub open spec fn digit_value(c: char) -> nat {
    (c as nat - '0' as nat) as nat
}

/// Whether a text consists of digits only.
pub open spec fn all_digits(s: Seq<char>) -> bool {
    forall|i: int| 0 <= i < s.len() ==> is_digit(#[trigger] s[i])
}

/// The number that a text of digits stands for in base ten.
pub open spec fn digits_value(s: Seq<char>) -> nat
    decreases s.len(),
{
    if s.len() == 0 {
        0
    } else {
        digits_value(s.drop_last()) * 10 + digit_value(s.last())
    }
}

/// A text without the plus sign that it may begin with.
pub open spec fn unsigned_part(s: Seq<char>) -> Seq<char> {
    if s.len() > 0 && s[0] == '+' {
        s.subrange(1, s.len() as int)
    } else {
        s
    }
}

/// The number that a text stands for: one or more digits, which a plus
/// sign may precede, whose value fits into 64 bits. Any other text stands
/// for no number.
pub open spec fn parse_u64_spec(s: Seq<char>) -> Option<u64> {
    let digits = unsigned_part(s);
    if digits.len() > 0 && all_digits(digits) && digits_value(digits) <= u64::MAX {
        Some(digits_value(digits) as u64)
    } else {
        None
    }
}

/// The value of a text of digits is at least the value of each text that
/// it starts with.
pub proof fn lemma_digits_value_grows(s: Seq<char>, n: int)
    requires
        0 <= n <= s.len(),
    ensures
        digits_value(s.take(n)) <= digits_value(s),
    decreases s.len() - n,
{
    if n == s.len() {
        assert(s.take(n) =~= s);
    } else {
        assert(s.drop_last().take(n) =~= s.take(n));
        lemma_digits_value_grows(s.drop_last(), n);
    }
}

/// Reads the number that the characters from position `from` on stand
/// for, which have to be digits, one at least.
fn parse_digits(s: &Vec<char>, from: usize) -> (r: Option<u64>)
    requires
        from <= s.len(),
    ensures
        r == (if s@.len() > from && all_digits(s@.subrange(from as int, s@.len() as int))
            && digits_value(s@.subrange(from as int, s@.len() as int)) <= u64::MAX {
            Some(digits_value(s@.subrange(from as int, s@.len() as int)) as u64)
        } else {
            None
        }),
{
    let n: usize = s.len();
    if from == n {
        return None;
    }
    let ghost digits = s@.subrange(from as int, n as int);
    let mut value: u64 = 0;
    let mut i: usize = from;
    while i < n
        invariant
            from <= i <= n,
            n == s.len(),
            digits == s@.subrange(from as int, n as int),
            all_digits(digits.take(i - from)),
            value == digits_value(digits.take(i - from)),
        decreases n - i,
    {
        let c = s[i];
        proof {
            assert(digits[i - from] == c);
            assert(digits.take(i - from + 1).drop_last() =~= digits.take(i - from));
            assert(digits.take(i - from + 1).last() == c);
        }
        if c < '0' || c > '9' {
            return None;
        }
        let d: u64 = (c as u32 - '0' as u32) as u64;
        let next = match value.checked_mul(10) {
            Some(v) => v.checked_add(d),
            None => None,
        };
        match next {
            Some(v) => {
                value = v;
            },
            None => {
                proof {
                    assert(digits_value(digits.take(i - from + 1)) > u64::MAX);
                    lemma_digits_value_grows(digits, i - from + 1);
                }
                return None;
            },
        }
        proof {
            assert forall|j: int| 0 <= j < i - from + 1 implies is_digit(
                #[trigger] digits.take(i - from + 1)[j],
            ) by {
                if j < i - from {
                    assert(digits.take(i - from)[j] == digits[j]);
                }
            }
        }
        i = i + 1;
    }
    proof {
        assert(digits.take(n - from) =~= digits);
    }
    Some(value)
}

/// Reads the number that a text stands for.
pub fn parse_u64(s: &Vec<char>) -> (r: Option<u64>)
    ensures
        r == parse_u64_spec(s@),
{
    if s.len() > 0 && s[0] == '+' {
        parse_digits(s, 1)
    } else {
        proof {
            assert(s@.subrange(0, s@.len() as int) =~= s@);
        }
        parse_digits(s, 0)
    }
}

/// The ten digits.
pub open spec fn digits() -> Seq<char> {
    seq!['0', '1', '2', '3', '4', '5', '6', '7', '8', '9']
}

/// A number in base ten, without leading zeros.
pub open spec fn decimal(n: nat) -> Seq<char>
    decreases n,
{
    if n < 10 {
        seq![digits()[n as int]]
    } else {
        decimal(n / 10).push(digits()[(n % 10) as int])
    }
}

/// The text of a number in base ten consists of digits, one at least, and
/// stands for that number.
pub proof fn lemma_decimal(n: nat)
    ensures
        decimal(n).len() > 0,
        all_digits(decimal(n)),
        digits_value(decimal(n)) == n,
    decreases n,
{
    let d = digits()[(n % 10) as int];
    assert(is_digit(d) && digit_value(d) == n % 10);
    if n < 10 {
        assert(decimal(n).drop_last() =~= Seq::<char>::empty());
        assert(digits_value(decimal(n).drop_last()) == 0);
    } else {
        lemma_decimal(n / 10);
        assert(decimal(n).drop_last() =~= decimal(n / 10));
    }
}

/// Reading undoes writing: the text of a number that fits into 64 bits is
/// read as that number.
pub proof fn lemma_parse_inverts_decimal(n: u64)
    ensures
        parse_u64_spec(decimal(n as nat)) == Some(n),
{
    lemma_decimal(n as nat);
    assert(decimal(n as nat)[0] != '+');
}

} // verus!
