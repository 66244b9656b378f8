//! Numbers as text.

use vstd::prelude::*;
use vstd::string::StringExecFns;

verus! {

/// The character of a decimal digit.
pub open spec fn digit(value: nat) -> char {
    ('0' as u32 + value) as char
}

/// A number in decimal, without leading zeros.
pub open spec fn decimal(value: nat) -> Seq<char>
    decreases value,
{
    if value < 10 {
        seq![digit(value)]
    } else {
        decimal(value / 10).push(digit(value % 10))
    }
}

/// A number in decimal with at least two digits.
pub open spec fn padded(value: nat) -> Seq<char> {
    if value < 10 {
        seq!['0', digit(value)]
    } else {
        decimal(value)
    }
}

fn digit_text(value: u64) -> (text: &'static str)
    requires
        value < 10,
    ensures
        text@ == seq![digit(value as nat)],
{
    proof {
        reveal_strlit("0");
        reveal_strlit("1");
        reveal_strlit("2");
        reveal_strlit("3");
        reveal_strlit("4");
        reveal_strlit("5");
        reveal_strlit("6");
        reveal_strlit("7");
        reveal_strlit("8");
        reveal_strlit("9");
    }
    let text = match value {
        0 => "0",
        1 => "1",
        2 => "2",
        3 => "3",
        4 => "4",
        5 => "5",
        6 => "6",
        7 => "7",
        8 => "8",
        _ => "9",
    };
    assert(text@ =~= seq![digit(value as nat)]);
    text
}

/// Append a number in decimal.
pub(crate) fn append_decimal(text: &mut String, value: u64)
    ensures
        final(text)@ == old(text)@ + decimal(value as nat),
    decreases value,
{
    if value >= 10 {
        append_decimal(text, value / 10);
    }
    text.append(digit_text(value % 10));
    assert(text@ =~= old(text)@ + decimal(value as nat));
}

/// Append a number in decimal with at least two digits.
pub(crate) fn append_padded(text: &mut String, value: u64)
    ensures
        final(text)@ == old(text)@ + padded(value as nat),
{
    if value < 10 {
        proof {
            reveal_strlit("0");
        }
        text.append("0");
        text.append(digit_text(value));
        assert(text@ =~= old(text)@ + padded(value as nat));
    } else {
        append_decimal(text, value);
    }
}

/// Append some text.
pub(crate) fn append_text(text: &mut String, more: &str)
    ensures
        final(text)@ == old(text)@ + more@,
{
    text.append(more);
}

/// A decimal digit.
pub open spec fn is_digit(c: char) -> bool {
    '0' <= c <= '9'
}

/// The number that decimal digits stand for, the first one weighing most.
pub open spec fn number_in(text: Seq<char>) -> int
    decreases text.len(),
{
    if text.len() == 0 {
        0
    } else {
        10 * number_in(text.drop_last()) + (text.last() as int - 48)
    }
}

/// A number in decimal reads back as that number, and begins with a zero only
/// where it is one.
pub proof fn law_decimals_read_back(value: nat)
    ensures
        number_in(decimal(value)) == value,
        decimal(value).len() >= 1,
        forall|i: int| 0 <= i < decimal(value).len() ==> is_digit(#[trigger] decimal(value)[i]),
        decimal(value)[0] == '0' ==> value == 0,
        decimal(value).len() == 1 <==> value < 10,
        decimal(value).len() <= 2 <==> value < 100,
    decreases value,
{
    let text = decimal(value);
    if value < 10 {
        assert(text.drop_last() =~= Seq::<char>::empty());
        assert(number_in(text.drop_last()) == 0);
    } else {
        law_decimals_read_back(value / 10);
        let head = decimal(value / 10);
        assert(text.drop_last() =~= head);
        assert forall|i: int| 0 <= i < text.len() implies is_digit(#[trigger] text[i]) by {
            if i < head.len() {
                assert(text[i] == head[i]);
            }
        }
    }
}

/// A padded number reads back as that number and has two digits, or more where
/// it needs them.
pub proof fn law_padded_numbers_read_back(value: nat)
    ensures
        number_in(padded(value)) == value,
        padded(value).len() >= 2,
        padded(value).len() == 2 <==> value < 100,
        forall|i: int| 0 <= i < padded(value).len() ==> is_digit(#[trigger] padded(value)[i]),
{
    law_decimals_read_back(value);
    if value < 10 {
        let text = padded(value);
        assert(text.drop_last() =~= seq!['0']);
        assert(seq!['0'].drop_last() =~= Seq::<char>::empty());
        reveal_with_fuel(number_in, 3);
    }
}

/// A number with something behind it reads back from in front of that.
pub(crate) proof fn lemma_number_in_front(value: nat, suffix: Seq<char>)
    ensures
        ({
            let text = decimal(value) + suffix;
            &&& number_in(text.subrange(0, text.len() - suffix.len())) == value
            &&& text.subrange(text.len() - suffix.len(), text.len() as int) == suffix
            &&& text.len() > suffix.len()
        }),
{
    law_decimals_read_back(value);
    let text = decimal(value) + suffix;
    assert(text.subrange(0, text.len() - suffix.len()) =~= decimal(value));
    assert(text.subrange(text.len() - suffix.len(), text.len() as int) =~= suffix);
}

} // verus!
