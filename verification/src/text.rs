//! Text by its characters, and whole numbers as decimal text.

use vstd::prelude::*;

verus! {

/// `String::push`: the string with the character added at its end.
pub assume_specification[ String::push ](s: &mut String, c: char)
    ensures
        final(s)@ == old(s)@.push(c),
;

/// The characters of a text, one by one.
pub fn chars_of(s: &str) -> (v: Vec<char>)
    ensures
        v@ == s@,
{
    let mut v: Vec<char> = Vec::new();
    for c in it: s.chars()
        invariant
            it.seq() == s@,
            v@ == s@.take(it.index() as int),
    {
        v.push(c);
        assert(s@.take(it.index() + 1) =~= s@.take(it.index() as int).push(c));
    }
    assert(s@.take(s@.len() as int) =~= s@);
    v
}

/// The character of a decimal digit.
pub open spec fn digit(d: nat) -> char {
    if d == 0 {
        '0'
    } else if d == 1 {
        '1'
    } else if d == 2 {
        '2'
    } else if d == 3 {
        '3'
    } else if d == 4 {
        '4'
    } else if d == 5 {
        '5'
    } else if d == 6 {
        '6'
    } else if d == 7 {
        '7'
    } else if d == 8 {
        '8'
    } else {
        '9'
    }
}

/// A natural number in decimal: its digits, the highest first, without
/// leading zeros.
pub open spec fn decimal(n: nat) -> Seq<char>
    decreases n,
{
    if n < 10 {
        seq![digit(n)]
    } else {
        decimal(n / 10).push(digit(n % 10))
    }
}

/// A whole number in decimal, with a minus sign before a negative one.
pub open spec fn signed_decimal(i: int) -> Seq<char> {
    if i < 0 {
        seq!['-'] + decimal((-i) as nat)
    } else {
        decimal(i as nat)
    }
}

fn digit_char(d: u64) -> (c: char)
    requires
        d < 10,
    ensures
        c == digit(d as nat),
{
    if d == 0 {
        '0'
    } else if d == 1 {
        '1'
    } else if d == 2 {
        '2'
    } else if d == 3 {
        '3'
    } else if d == 4 {
        '4'
    } else if d == 5 {
        '5'
    } else if d == 6 {
        '6'
    } else if d == 7 {
        '7'
    } else if d == 8 {
        '8'
    } else {
        '9'
    }
}

/// Adds a natural number in decimal to the end of a text.
pub fn push_decimal(text: &mut String, n: u64)
    ensures
        final(text)@ == old(text)@ + decimal(n as nat),
{
    // The digits, the lowest first.
    let mut digits: Vec<char> = Vec::new();
    digits.push(digit_char(n % 10));
    let mut rest = n / 10;
    while rest > 0
        invariant
            digits.len() >= 1,
            decimal(n as nat) == (if rest == 0 {
                Seq::<char>::empty()
            } else {
                decimal(rest as nat)
            }) + digits@.reverse(),
        decreases rest,
    {
        let ghost before = digits@;
        digits.push(digit_char(rest % 10));
        proof {
            assert(digits@.reverse() =~= seq![digit((rest % 10) as nat)] + before.reverse());
            let head = if rest / 10 == 0 {
                Seq::<char>::empty()
            } else {
                decimal((rest / 10) as nat)
            };
            assert(decimal(rest as nat) =~= head.push(digit((rest % 10) as nat)));
            assert(decimal(rest as nat) + before.reverse() =~= head + digits@.reverse());
        }
        rest = rest / 10;
    }
    let ghost start = text@;
    let mut k = digits.len();
    while k > 0
        invariant
            k <= digits.len(),
            text@ == start + digits@.reverse().take(digits.len() - k),
        decreases k,
    {
        k -= 1;
        text.push(digits[k]);
        proof {
            let turned = digits@.reverse();
            assert(turned.take(digits.len() - k) =~= turned.take(digits.len() - k - 1).push(
                digits@[k as int],
            ));
        }
    }
    proof {
        assert(digits@.reverse().take(digits.len() as int) =~= digits@.reverse());
    }
}

/// Adds a whole number in decimal to the end of a text.
pub fn push_signed_decimal(text: &mut String, i: i64)
    ensures
        final(text)@ == old(text)@ + signed_decimal(i as int),
{
    if i < 0 {
        text.push('-');
        let size: u64 = if i == i64::MIN {
            9_223_372_036_854_775_808
        } else {
            (-i) as u64
        };
        push_decimal(text, size);
        assert(text@ =~= old(text)@ + (seq!['-'] + decimal((-i) as nat)));
    } else {
        push_decimal(text, i as u64);
    }
}

/// A natural number as decimal text.
pub fn decimal_text(n: u64) -> (text: String)
    ensures
        text@ == decimal(n as nat),
{
    let mut text = String::new();
    push_decimal(&mut text, n);
    assert(text@ =~= decimal(n as nat));
    text
}

} // verus!
