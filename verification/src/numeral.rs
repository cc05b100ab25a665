//! Decimal numerals and right-justified fields.

use vstd::prelude::*;
use vstd::string::StrSliceExecFns;
use vstd::string::StringExecFns;

verus! {

/// The character for a decimal digit.
pub open spec fn digit_char(d: nat) -> char {
    if d == 0 {
        '0'
    } else if d == 1 {
        '1'
    } else if d == 2 {
        '2'
    } else if d == 3 {
        '3'
    } else if d == 4 {
        '4'
    } else if d == 5 {
        '5'
    } else if d == 6 {
        '6'
    } else if d == 7 {
        '7'
    } else if d == 8 {
        '8'
    } else {
        '9'
    }
}

/// The decimal numeral of `n`, without leading zeros.
pub open spec fn decimal(n: nat) -> Seq<char>
    decreases n,
{
    if n < 10 {
        seq![digit_char(n)]
    } else {
        decimal(n / 10).push(digit_char(n % 10))
    }
}

/// `count` spaces.
pub open spec fn spaces(count: nat) -> Seq<char> {
    Seq::new(count, |i: int| ' ')
}

/// `text` moved to the right end of a field of `width` characters, the field
/// filled up with spaces on the left. A text that is wider than the field is
/// left as it is.
pub open spec fn right_justified(text: Seq<char>, width: nat) -> Seq<char> {
    if text.len() >= width {
        text
    } else {
        spaces((width - text.len()) as nat) + text
    }
}

/// The one-character string for the digit `d`.
fn digit_str(d: u64) -> (s: &'static str)
    requires
        d < 10,
    ensures
        s@ == seq![digit_char(d as nat)],
{
    proof {
        reveal_strlit("0");
        reveal_strlit("1");
        reveal_strlit("2");
        reveal_strlit("3");
        reveal_strlit("4");
        reveal_strlit("5");
        reveal_strlit("6");
        reveal_strlit("7");
        reveal_strlit("8");
        reveal_strlit("9");
    }
    let s = if d == 0 {
        "0"
    } else if d == 1 {
        "1"
    } else if d == 2 {
        "2"
    } else if d == 3 {
        "3"
    } else if d == 4 {
        "4"
    } else if d == 5 {
        "5"
    } else if d == 6 {
        "6"
    } else if d == 7 {
        "7"
    } else if d == 8 {
        "8"
    } else {
        "9"
    };
    assert(s@ =~= seq![digit_char(d as nat)]);
    s
}

/// Appends the decimal numeral of `n` to `out`.
pub fn push_decimal(out: &mut String, n: u64)
    ensures
        final(out)@ == old(out)@ + decimal(n as nat),
    decreases n,
{
    if n >= 10 {
        push_decimal(out, n / 10);
    }
    out.append(digit_str(n % 10));
    proof {
        if n >= 10 {
            assert(final(out)@ =~= old(out)@ + decimal(n as nat));
        } else {
            assert(final(out)@ =~= old(out)@ + decimal(n as nat));
        }
    }
}

/// The decimal numeral of `n`.
pub fn decimal_string(n: u64) -> (s: String)
    ensures
        s@ == decimal(n as nat),
{
    let mut s = String::new();
    push_decimal(&mut s, n);
    assert(s@ =~= decimal(n as nat));
    s
}

/// Appends `count` spaces to `out`.
pub fn push_spaces(out: &mut String, count: usize)
    ensures
        final(out)@ == old(out)@ + spaces(count as nat),
{
    let mut i: usize = 0;
    proof {
        reveal_strlit(" ");
        assert(out@ =~= old(out)@ + spaces(0));
    }
    while i < count
        invariant
            i <= count,
            out@ == old(out)@ + spaces(i as nat),
        decreases count - i,
    {
        out.append(" ");
        i += 1;
        proof {
            reveal_strlit(" ");
            assert(out@ =~= old(out)@ + spaces(i as nat));
        }
    }
}

/// The numeral of `n` at the right end of a field of `width` characters.
pub fn justified_decimal(n: u64, width: usize) -> (field: String)
    ensures
        field@ == right_justified(decimal(n as nat), width as nat),
{
    let digits = decimal_string(n);
    let len = digits.as_str().unicode_len();
    let mut field = String::new();
    if len < width {
        push_spaces(&mut field, width - len);
    }
    field.append(digits.as_str());
    proof {
        assert(field@ =~= right_justified(decimal(n as nat), width as nat));
    }
    field
}

/// The digit that `c` stands for, if it is a decimal digit.
pub open spec fn digit_of(c: char) -> Option<nat> {
    if c == '0' {
        Some(0)
    } else if c == '1' {
        Some(1)
    } else if c == '2' {
        Some(2)
    } else if c == '3' {
        Some(3)
    } else if c == '4' {
        Some(4)
    } else if c == '5' {
        Some(5)
    } else if c == '6' {
        Some(6)
    } else if c == '7' {
        Some(7)
    } else if c == '8' {
        Some(8)
    } else if c == '9' {
        Some(9)
    } else {
        None
    }
}

/// Whether `text` is made of decimal digits only.
pub open spec fn all_digits(text: Seq<char>) -> bool {
    forall|i: int| 0 <= i < text.len() ==> (#[trigger] digit_of(text[i])) is Some
}

/// The number that the digits of `text` write, the first digit weighing most.
pub open spec fn digits_value(text: Seq<char>) -> nat
    decreases text.len(),
{
    if text.len() == 0 {
        0
    } else {
        10 * digits_value(text.drop_last()) + match digit_of(text.last()) {
            Some(d) => d,
            None => 0,
        }
    }
}

/// The number that `text` denotes: one or more decimal digits, which a plus
/// sign may precede. Any other text, the empty one and a lone sign among them,
/// denotes none.
pub open spec fn number_of(text: Seq<char>) -> Option<nat> {
    let digits = if text.len() > 0 && text[0] == '+' {
        text.drop_first()
    } else {
        text
    };
    if digits.len() > 0 && all_digits(digits) {
        Some(digits_value(digits))
    } else {
        None
    }
}

/// Reading more digits never gives a smaller number.
pub proof fn lemma_digits_value_grows(text: Seq<char>, read: int)
    requires
        0 <= read <= text.len(),
    ensures
        digits_value(text.take(read)) <= digits_value(text),
    decreases text.len(),
{
    if read == text.len() {
        assert(text.take(read) =~= text);
    } else {
        assert(text.drop_last().take(read) =~= text.take(read));
        lemma_digits_value_grows(text.drop_last(), read);
    }
}

/// A digit's character stands for that digit.
pub proof fn lemma_digit_round_trip(d: nat)
    requires
        d < 10,
    ensures
        digit_of(digit_char(d)) == Some(d),
{
}

/// A numeral denotes the number it was written for.
pub proof fn lemma_decimal_denotes_its_number(n: nat)
    ensures
        all_digits(decimal(n)),
        digits_value(decimal(n)) == n,
        number_of(decimal(n)) == Some(n),
    decreases n,
{
    let text = decimal(n);
    lemma_digit_round_trip(n % 10);
    if n >= 10 {
        lemma_decimal_denotes_its_number(n / 10);
        assert(text.drop_last() =~= decimal(n / 10));
        assert(text.last() == digit_char(n % 10));
        assert forall|i: int| 0 <= i < text.len() implies (#[trigger] digit_of(text[i])) is Some by {
            if i < text.len() - 1 {
                assert(text[i] == decimal(n / 10)[i]);
            }
        }
        assert(digits_value(text) == 10 * digits_value(decimal(n / 10)) + n % 10);
    } else {
        assert(text.drop_last() =~= Seq::<char>::empty());
        assert(text.last() == digit_char(n));
        assert(digits_value(text.drop_last()) == 0);
        assert(digits_value(text) == n);
    }
    lemma_decimal_starts_with_digit(n);
}

/// A numeral starts with a digit.
pub proof fn lemma_decimal_starts_with_digit(n: nat)
    ensures
        decimal(n).len() >= 1,
        digit_of(decimal(n)[0]) is Some,
    decreases n,
{
    if n >= 10 {
        lemma_decimal_starts_with_digit(n / 10);
    }
}

/// The digit that `c` stands for, if it is one.
fn digit_value(c: char) -> (d: Option<usize>)
    ensures
        match d {
            Some(v) => digit_of(c) == Some(v as nat) && v < 10,
            None => digit_of(c) is None,
        },
{
    if c == '0' {
        Some(0)
    } else if c == '1' {
        Some(1)
    } else if c == '2' {
        Some(2)
    } else if c == '3' {
        Some(3)
    } else if c == '4' {
        Some(4)
    } else if c == '5' {
        Some(5)
    } else if c == '6' {
        Some(6)
    } else if c == '7' {
        Some(7)
    } else if c == '8' {
        Some(8)
    } else if c == '9' {
        Some(9)
    } else {
        None
    }
}

/// Reads the number that `text` denotes. There is none to hand back where the
/// text denotes no number, or one that a `usize` cannot hold.
pub fn parse_decimal(text: &str) -> (number: Option<usize>)
    ensures
        number == match number_of(text@) {
            Some(n) => if n <= usize::MAX {
                Some(n as usize)
            } else {
                None
            },
            None => None,
        },
{
    let mut value: usize = 0;
    let mut first = true;
    let mut signed = false;
    let mut any_digit = false;
    for c in it: text.chars()
        invariant
            it.seq() == text@,
            first == (it.index() == 0),
            signed == (it.index() > 0 && text@[0] == '+'),
            any_digit == (it.index() > if signed { 1int } else { 0int }),
            ({
                let start = if signed { 1int } else { 0int };
                let digits = text@.subrange(start, it.index() as int);
                it.index() >= start ==> all_digits(digits) && value == digits_value(digits)
            }),
            it.index() == 0 ==> value == 0,
    {
        let ghost read = it.index() as int;
        if first && c == '+' {
            signed = true;
            proof {
                assert(text@.subrange(1, 1) =~= Seq::<char>::empty());
            }
        } else {
            let ghost start = if signed { 1int } else { 0int };
            let ghost digits = text@.subrange(start, read);
            let ghost longer = text@.subrange(start, read + 1);
            let ghost whole = text@.subrange(start, text@.len() as int);
            proof {
                assert(longer.drop_last() =~= digits);
                assert(longer.last() == c);
                assert(whole.take(read + 1 - start) =~= longer);
                assert(whole[read - start] == c);
                assert(signed ==> whole =~= text@.drop_first());
                assert(!signed ==> whole =~= text@);
            }
            match digit_value(c) {
                None => {
                    return None;
                },
                Some(d) => {
                    if value > (usize::MAX - d) / 10 {
                        proof {
                            lemma_digits_value_grows(whole, read + 1 - start);
                        }
                        return None;
                    }
                    value = value * 10 + d;
                    any_digit = true;
                    proof {
                        assert forall|i: int| 0 <= i < longer.len() implies (#[trigger] digit_of(
                            longer[i],
                        )) is Some by {
                            if i < digits.len() {
                                assert(longer[i] == digits[i]);
                            }
                        }
                    }
                },
            }
        }
        first = false;
    }
    proof {
        let start = if signed { 1int } else { 0int };
        let whole = text@.subrange(start, text@.len() as int);
        assert(signed ==> whole =~= text@.drop_first());
        assert(!signed ==> whole =~= text@);
    }
    if any_digit {
        Some(value)
    } else {
        None
    }
}

} // verus!
