//! Numbers and messages as text.

use vstd::prelude::*;
use vstd::string::*;

verus! {

/// The character that stands for the digit `d`: 0 to 9, then a to z.
pub open spec fn digit_char(d: nat) -> char {
    if d < 10 {
        (48 + d) as char
    } else {
        (87 + d) as char
    }
}

/// The number `n` written in `base`, most significant digit first, with no leading zero.
pub open spec fn numeral(n: nat, base: nat) -> Seq<char>
    decreases n,
{
    if base < 2 || n < base {
        seq![digit_char(n)]
    } else {
        proof {
            assert(n / base < n) by (nonlinear_arith)
                requires
                    base >= 2,
                    n >= base,
            ;
        }
        numeral(n / base, base).push(digit_char(n % base))
    }
}

/// The number `n` in decimal.
pub open spec fn decimal(n: nat) -> Seq<char> {
    numeral(n, 10)
}

/// The number `n` in decimal, with a minus sign in front where it is negative.
pub open spec fn signed_decimal(n: int) -> Seq<char> {
    if n < 0 {
        "-"@ + decimal((-n) as nat)
    } else {
        decimal(n as nat)
    }
}

/// The number `n` in base 36.
pub open spec fn base36(n: nat) -> Seq<char> {
    numeral(n, 36)
}

/// The value of a base 36 digit, of either case.
pub open spec fn base36_digit(c: char) -> Option<nat> {
    if '0' <= c && c <= '9' {
        Some((c as nat - 48) as nat)
    } else if 'a' <= c && c <= 'z' {
        Some((c as nat - 87) as nat)
    } else if 'A' <= c && c <= 'Z' {
        Some((c as nat - 55) as nat)
    } else {
        None
    }
}

/// The number that a run of base 36 digits writes. Underscores are skipped; any other character
/// that is no digit spoils the run.
pub open spec fn base36_run(text: Seq<char>) -> Option<nat>
    decreases text.len(),
{
    if text.len() == 0 {
        Some(0)
    } else {
        match base36_run(text.drop_last()) {
            None => None,
            Some(high) => if text.last() == '_' {
                Some(high)
            } else {
                match base36_digit(text.last()) {
                    None => None,
                    Some(d) => Some(high * 36 + d),
                }
            },
        }
    }
}

/// `text` without the plus sign that a number may start with.
pub open spec fn unsigned_part(text: Seq<char>) -> Seq<char> {
    if text.len() > 0 && text[0] == '+' && !(text.len() > 1 && text[1] == '+') {
        text.skip(1)
    } else {
        text
    }
}

/// The number that `text` writes in base 36: an optional plus sign, a digit, then digits and
/// underscores.
pub open spec fn base36_number(text: Seq<char>) -> Option<nat> {
    let digits = unsigned_part(text);
    if digits.len() == 0 || digits[0] == '_' {
        None
    } else {
        base36_run(digits)
    }
}

/// A number written in base 36 reads back as itself.
pub proof fn law_base36_reads_back(n: nat)
    ensures
        base36_number(base36(n)) == Some(n),
{
    lemma_base36_run(n);
    let text = base36(n);
    lemma_first_digit(n);
    assert(unsigned_part(text) == text);
}

proof fn lemma_digit(d: nat)
    requires
        d < 36,
    ensures
        base36_digit(digit_char(d)) == Some(d),
        digit_char(d) != '_',
        digit_char(d) != '+',
{
}

proof fn lemma_base36_run(n: nat)
    ensures
        base36_run(base36(n)) == Some(n),
    decreases n,
{
    if n < 36 {
        lemma_digit(n);
        assert(base36(n).drop_last() =~= Seq::<char>::empty());
        reveal_with_fuel(base36_run, 2);
    } else {
        lemma_base36_run(n / 36);
        lemma_digit(n % 36);
        assert(base36(n).drop_last() =~= base36(n / 36));
        assert((n / 36) * 36 + n % 36 == n);
    }
}

proof fn lemma_first_digit(n: nat)
    ensures
        base36(n).len() > 0,
        base36(n)[0] != '_',
        base36(n)[0] != '+',
    decreases n,
{
    if n < 36 {
        lemma_digit(n);
    } else {
        lemma_first_digit(n / 36);
    }
}

/// The text of one decimal digit.
fn digit_text(d: u64) -> (r: &'static str)
    requires
        d < 10,
    ensures
        r@ == seq![digit_char(d as nat)],
{
    proof {
        reveal_strlit("0");
        reveal_strlit("1");
        reveal_strlit("2");
        reveal_strlit("3");
        reveal_strlit("4");
        reveal_strlit("5");
        reveal_strlit("6");
        reveal_strlit("7");
        reveal_strlit("8");
        reveal_strlit("9");
    }
    let r: &'static str = match d {
        0 => "0",
        1 => "1",
        2 => "2",
        3 => "3",
        4 => "4",
        5 => "5",
        6 => "6",
        7 => "7",
        8 => "8",
        _ => "9",
    };
    assert(r@ =~= seq![digit_char(d as nat)]);
    r
}

/// Appends `n` in decimal.
pub fn push_decimal(text: &mut String, n: u64)
    ensures
        final(text)@ == old(text)@ + decimal(n as nat),
    decreases n,
{
    if n >= 10 {
        push_decimal(text, n / 10);
    }
    text.append(digit_text(n % 10));
    assert(text@ =~= old(text)@ + decimal(n as nat));
}

/// Appends `n` in decimal, with a minus sign in front where it is negative.
pub fn push_signed(text: &mut String, n: i64)
    ensures
        final(text)@ == old(text)@ + signed_decimal(n as int),
{
    if n < 0 {
        text.append("-");
        let magnitude: u64 = if n == i64::MIN {
            0x8000_0000_0000_0000
        } else {
            (-n) as u64
        };
        push_decimal(text, magnitude);
        assert(text@ =~= old(text)@ + ("-"@ + decimal((-n) as nat)));
    } else {
        push_decimal(text, n as u64);
    }
}

/// `n` in decimal.
pub fn decimal_text(n: u64) -> (r: String)
    ensures
        r@ == decimal(n as nat),
{
    let mut text = String::new();
    push_decimal(&mut text, n);
    assert(text@ =~= decimal(n as nat));
    text
}

/// A number is written digit by digit: below ten by the one digit, and otherwise by what a tenth of
/// it is written by and its last digit.
pub proof fn law_decimal_digits(n: nat)
    ensures
        n < 10 ==> decimal(n) == seq![(48 + n) as char],
        n >= 10 ==> decimal(n) == decimal(n / 10).push((48 + n % 10) as char),
        decimal(0) == seq!['0'],
        n > 0 ==> signed_decimal(-n) == seq!['-'] + decimal(n),
        signed_decimal(n as int) == decimal(n),
{
    reveal_strlit("-");
    assert("-"@ =~= seq!['-']);
}

/// A number in base 36 is written digit by digit, with the letters from a to z behind the digits.
pub proof fn law_base36_digits(n: nat)
    ensures
        n < 10 ==> base36(n) == seq![(48 + n) as char],
        10 <= n < 36 ==> base36(n) == seq![(97 + (n - 10)) as char],
        n >= 36 ==> base36(n) == base36(n / 36) + base36(n % 36),
{
    if n >= 36 {
        assert(base36(n) =~= base36(n / 36) + base36(n % 36));
    }
}

/// A number in base 36 is read digit by digit, letters of either case: a digit behind a number
/// makes it 36 times as large and adds its own value, an underscore changes nothing, and any other
/// character spoils it. One plus sign may stand in front.
pub proof fn law_base36_is_read_digit_by_digit(text: Seq<char>, c: char)
    ensures
        base36_number(Seq::empty()) is None,
        '0' <= c <= '9' ==> base36_number(seq![c]) == Some((c as int - 48) as nat),
        'a' <= c <= 'z' ==> base36_number(seq![c]) == Some((c as int - 87) as nat),
        'A' <= c <= 'Z' ==> base36_number(seq![c]) == Some((c as int - 55) as nat),
        base36_number(text) matches Some(n) ==> {
            &&& '0' <= c <= '9' ==> base36_number(text.push(c)) == Some(
                (n * 36 + (c as int - 48)) as nat,
            )
            &&& 'a' <= c <= 'z' ==> base36_number(text.push(c)) == Some(
                (n * 36 + (c as int - 87)) as nat,
            )
            &&& 'A' <= c <= 'Z' ==> base36_number(text.push(c)) == Some(
                (n * 36 + (c as int - 55)) as nat,
            )
            &&& c == '_' ==> base36_number(text.push(c)) == Some(n)
            &&& !('0' <= c <= '9' || 'a' <= c <= 'z' || 'A' <= c <= 'Z' || c == '_')
                ==> base36_number(text.push(c)) is None
            &&& text[0] != '+' ==> base36_number(seq!['+'] + text) == Some(n)
        },
{
    let one = seq![c];
    assert(one.drop_last() =~= Seq::<char>::empty());
    assert(Seq::<char>::empty().len() == 0);
    reveal_with_fuel(base36_run, 2);
    assert(unsigned_part(Seq::<char>::empty()) == Seq::<char>::empty());
    if base36_number(text) is Some {
        let digits = unsigned_part(text);
        let longer = text.push(c);
        assert(longer[0] == text[0]);
        if text.len() == 1 {
            assert(digits == text);
            assert(text[0] != '+') by {
                assert(text.skip(1).len() == 0);
                assert(base36_run(text) is Some);
                assert(text.drop_last() =~= Seq::<char>::empty());
            }
        } else {
            assert(longer[1] == text[1]);
        }
        if digits == text {
            assert(unsigned_part(longer) == longer);
            assert(longer.drop_last() =~= text);
        } else {
            assert(unsigned_part(longer) =~= digits.push(c));
            assert(digits.push(c).drop_last() =~= digits);
            assert(digits.push(c)[0] == digits[0]);
        }
        if text[0] != '+' {
            let signed = seq!['+'] + text;
            assert(signed[1] == text[0]);
            assert(signed.skip(1) =~= text);
        }
    }
}

} // verus!
