//! Decimal numerals and the joining of message texts.
use vstd::prelude::*;

verus! {

/// The character of a decimal digit.
pub open spec fn digit(n: nat) -> char
    recommends
        n < 10,
{
    (48 + n) as char
}

/// A number in decimal, without leading zeros.
pub open spec fn decimal(n: nat) -> Seq<char>
    decreases n,
{
    if n < 10 {
        seq![digit(n)]
    } else {
        decimal(n / 10).push(digit(n % 10))
    }
}

fn digit_text(n: usize) -> (text: &'static str)
    requires
        n < 10,
    ensures
        text@ == seq![digit(n as nat)],
{
    proof {
        reveal_strlit("0");
        reveal_strlit("1");
        reveal_strlit("2");
        reveal_strlit("3");
        reveal_strlit("4");
        reveal_strlit("5");
        reveal_strlit("6");
        reveal_strlit("7");
        reveal_strlit("8");
        reveal_strlit("9");
    }
    match n {
        0 => "0",
        1 => "1",
        2 => "2",
        3 => "3",
        4 => "4",
        5 => "5",
        6 => "6",
        7 => "7",
        8 => "8",
        _ => "9",
    }
}

/// Writes `n` in decimal.
pub fn decimal_text(n: usize) -> (text: String)
    ensures
        text@ == decimal(n as nat),
    decreases n,
{
    if n < 10 {
        digit_text(n).to_string()
    } else {
        let mut text = decimal_text(n / 10);
        text.append(digit_text(n % 10));
        text
    }
}

/// Two texts in a row.
pub(crate) fn pair(first: &str, second: &str) -> (text: String)
    ensures
        text@ == first@ + second@,
{
    let mut text = first.to_string();
    text.append(second);
    text
}

/// Three texts in a row.
pub(crate) fn join(first: &str, second: &str, third: &str) -> (text: String)
    ensures
        text@ == first@ + second@ + third@,
{
    let mut text = first.to_string();
    text.append(second);
    text.append(third);
    text
}

/// The number that decimal digits stand for.
pub open spec fn numeral(digits: Seq<char>) -> int
    decreases digits.len(),
{
    if digits.len() == 0 {
        0
    } else {
        10 * numeral(digits.drop_last()) + (digits.last() as int - '0' as int)
    }
}

/// Whether a text is a number in decimal: digits that stand for it, the first of them a zero
/// only if it is the only one.
pub open spec fn is_decimal(text: Seq<char>, n: int) -> bool {
    &&& text.len() > 0
    &&& forall|i: int| 0 <= i < text.len() ==> '0' <= #[trigger] text[i] <= '9'
    &&& text[0] == '0' ==> text.len() == 1
    &&& numeral(text) == n
}

pub(crate) proof fn lemma_decimal(n: nat)
    ensures
        is_decimal(decimal(n), n as int),
    decreases n,
{
    let text = decimal(n);
    if n < 10 {
        assert(text.drop_last() =~= Seq::empty());
        assert(numeral(text.drop_last()) == 0);
    } else {
        let front = decimal(n / 10);
        lemma_decimal(n / 10);
        assert(text.drop_last() =~= front);
        assert(text[0] == front[0]);
        if front[0] == '0' {
            assert(front.drop_last() =~= Seq::empty());
            assert(numeral(front.drop_last()) == 0);
        }
        assert forall|i: int| 0 <= i < text.len() implies '0' <= #[trigger] text[i] <= '9' by {
            if i < front.len() {
                assert(text[i] == front[i]);
            }
        }
    }
}

/// A number is written as the decimal digits that stand for it, without leading zeros.
pub proof fn law_decimal_text(n: usize, text: String)
    requires
        call_ensures(decimal_text, (n,), text),
    ensures
        is_decimal(text@, n as int),
{
    lemma_decimal(n as nat);
}

} // verus!
