//! Decimal text of integers, as it stands in a block's canonical form and in
//! the text that the proof-of-work puzzle digests.

use vstd::prelude::*;
use vstd::string::*;
use vstd::utf8::is_ascii_chars;

verus! {

/// The character of one decimal digit.
pub open spec fn digit_char(d: nat) -> char {
    if d == 0 {
        '0'
    } else if d == 1 {
        '1'
    } else if d == 2 {
        '2'
    } else if d == 3 {
        '3'
    } else if d == 4 {
        '4'
    } else if d == 5 {
        '5'
    } else if d == 6 {
        '6'
    } else if d == 7 {
        '7'
    } else if d == 8 {
        '8'
    } else {
        '9'
    }
}

/// The digits of a natural number, most significant first, without leading
/// zeros; zero is the single digit `0`.
pub open spec fn digits(n: nat) -> Seq<char>
    decreases n,
{
    if n < 10 {
        seq![digit_char(n)]
    } else {
        digits(n / 10).push(digit_char(n % 10))
    }
}

/// The decimal text of an integer: its digits, after a minus sign where it is
/// negative.
pub open spec fn decimal(i: int) -> Seq<char> {
    if i < 0 {
        seq!['-'] + digits((-i) as nat)
    } else {
        digits(i as nat)
    }
}

/// Ten to the power `k`.
pub open spec fn pow10(k: nat) -> nat
    decreases k,
{
    if k == 0 {
        1
    } else {
        10 * pow10((k - 1) as nat)
    }
}

/// A number below ten to the `k` has at most `k` digits.
pub proof fn lemma_digits_len(n: nat, k: nat)
    requires
        k >= 1,
        n < pow10(k),
    ensures
        1 <= digits(n).len() <= k,
    decreases k,
{
    reveal_with_fuel(pow10, 2);
    if n >= 10 {
        assert(k >= 2);
        assert(n / 10 < pow10((k - 1) as nat));
        lemma_digits_len(n / 10, (k - 1) as nat);
    }
}

/// The decimal text of a 32-bit integer has at most eleven characters.
pub proof fn lemma_decimal_len_i32(i: int)
    requires
        i32::MIN <= i <= i32::MAX,
    ensures
        1 <= decimal(i).len() <= 11,
{
    assert(pow10(10) == 10_000_000_000nat) by {
        reveal_with_fuel(pow10, 11);
    }
    if i < 0 {
        lemma_digits_len((-i) as nat, 10);
    } else {
        lemma_digits_len(i as nat, 10);
    }
}

/// The digits of a number are ASCII characters.
pub proof fn lemma_digits_ascii(n: nat)
    ensures
        is_ascii_chars(digits(n)),
    decreases n,
{
    if n >= 10 {
        lemma_digits_ascii(n / 10);
        let head = digits(n / 10);
        assert forall|j: int| 0 <= j < digits(n).len() implies '\0' <= #[trigger] digits(n)[j]
            <= '\u{7f}' by {
            if j < head.len() {
                assert(digits(n)[j] == head[j]);
            }
        }
    }
}

/// The decimal text of an integer holds ASCII characters only.
pub proof fn lemma_decimal_ascii(i: int)
    ensures
        is_ascii_chars(decimal(i)),
{
    if i < 0 {
        lemma_digits_ascii((-i) as nat);
        let tail = digits((-i) as nat);
        assert forall|j: int| 0 <= j < decimal(i).len() implies '\0' <= #[trigger] decimal(i)[j]
            <= '\u{7f}' by {
            if j >= 1 {
                assert(decimal(i)[j] == tail[j - 1]);
            }
        }
    } else {
        lemma_digits_ascii(i as nat);
    }
}

fn digit_text(d: u64) -> (text: &'static str)
    requires
        d < 10,
    ensures
        text@ == seq![digit_char(d as nat)],
{
    proof {
        reveal_strlit("0");
        reveal_strlit("1");
        reveal_strlit("2");
        reveal_strlit("3");
        reveal_strlit("4");
        reveal_strlit("5");
        reveal_strlit("6");
        reveal_strlit("7");
        reveal_strlit("8");
        reveal_strlit("9");
    }
    let text = if d == 0 {
        "0"
    } else if d == 1 {
        "1"
    } else if d == 2 {
        "2"
    } else if d == 3 {
        "3"
    } else if d == 4 {
        "4"
    } else if d == 5 {
        "5"
    } else if d == 6 {
        "6"
    } else if d == 7 {
        "7"
    } else if d == 8 {
        "8"
    } else {
        "9"
    };
    assert(text@ =~= seq![digit_char(d as nat)]);
    text
}

/// Appends the digits of `n` to `out`.
pub fn push_unsigned(out: &mut String, n: u64)
    ensures
        final(out)@ == old(out)@ + digits(n as nat),
    decreases n,
{
    if n >= 10 {
        push_unsigned(out, n / 10);
    }
    out.append(digit_text(n % 10));
    assert(out@ =~= old(out)@ + digits(n as nat));
}

/// Appends the decimal text of `i` to `out`.
pub fn push_signed(out: &mut String, i: i32)
    ensures
        final(out)@ == old(out)@ + decimal(i as int),
{
    if i < 0 {
        proof {
            reveal_strlit("-");
        }
        out.append("-");
        let magnitude: u64 = (-(i as i64)) as u64;
        push_unsigned(out, magnitude);
        assert(out@ =~= old(out)@ + decimal(i as int));
    } else {
        push_unsigned(out, i as u64);
    }
}

} // verus!
