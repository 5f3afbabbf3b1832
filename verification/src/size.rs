//! Which text is a number: the grammar that the standard library documents
//! for reading a floating-point number from text, decided on characters.
//!
//! ```text
//! Float  ::= Sign? ( 'inf' | 'infinity' | 'nan' | Number )
//! Number ::= ( Digit+ | Digit+ '.' Digit* | Digit* '.' Digit+ ) Exp?
//! Exp    ::= 'e' Sign? Digit+
//! Sign   ::= [+-]
//! Digit  ::= [0-9]
//! ```
//!
//! Letters count in either case. Nothing may stand before or after the
//! number, blanks included.

use vstd::prelude::*;

verus! {

/// `Digit`.
pub open spec fn is_digit(c: char) -> bool {
    '0' <= c && c <= '9'
}

/// `Sign`.
pub open spec fn is_sign(c: char) -> bool {
    c == '+' || c == '-'
}

/// The letter that opens an exponent, in either case.
pub open spec fn is_exponent_mark(c: char) -> bool {
    c == 'e' || c == 'E'
}

/// `Digit*`: every character is a digit.
pub open spec fn all_digits(t: Seq<char>) -> bool {
    forall|i: int| 0 <= i < t.len() ==> is_digit(#[trigger] t[i])
}

/// Whether a text is a word, letter for letter, in either case: `lower` and
/// `upper` are the word in small and in capital letters.
pub open spec fn spells(t: Seq<char>, lower: Seq<char>, upper: Seq<char>) -> bool {
    &&& t.len() == lower.len()
    &&& forall|i: int| 0 <= i < t.len() ==> (#[trigger] t[i]) == lower[i] || t[i] == upper[i]
}

/// `'inf' | 'infinity' | 'nan'`.
pub open spec fn is_named_number(t: Seq<char>) -> bool {
    ||| spells(t, seq!['i', 'n', 'f'], seq!['I', 'N', 'F'])
    ||| spells(
        t,
        seq!['i', 'n', 'f', 'i', 'n', 'i', 't', 'y'],
        seq!['I', 'N', 'F', 'I', 'N', 'I', 'T', 'Y'],
    )
    ||| spells(t, seq!['n', 'a', 'n'], seq!['N', 'A', 'N'])
}

/// Whether a text has a point at `k` with nothing but digits before and
/// after it.
pub open spec fn splits_at_point(t: Seq<char>, k: int) -> bool {
    &&& 0 <= k < t.len()
    &&& t[k] == '.'
    &&& all_digits(t.take(k))
    &&& all_digits(t.skip(k + 1))
}

/// `Digit+ | Digit+ '.' Digit* | Digit* '.' Digit+`: digits with at most
/// one point among them, and at least one digit.
pub open spec fn is_mantissa(t: Seq<char>) -> bool {
    ||| t.len() >= 1 && all_digits(t)
    ||| t.len() >= 2 && exists|k: int| splits_at_point(t, k)
}

/// `Exp`: the mark, a sign or none, and at least one digit.
pub open spec fn is_exponent(t: Seq<char>) -> bool {
    &&& t.len() >= 2
    &&& is_exponent_mark(t[0])
    &&& all_digits(t.skip(1)) || t.len() >= 3 && is_sign(t[1]) && all_digits(t.skip(2))
}

/// Whether a text is a mantissa up to `k` and an exponent from there.
pub open spec fn splits_at_exponent(t: Seq<char>, k: int) -> bool {
    &&& 0 < k < t.len()
    &&& is_mantissa(t.take(k))
    &&& is_exponent(t.skip(k))
}

/// `Number`: a mantissa, with an exponent or without.
pub open spec fn is_decimal_number(t: Seq<char>) -> bool {
    is_mantissa(t) || exists|k: int| splits_at_exponent(t, k)
}

/// A number without its sign.
pub open spec fn is_unsigned_number(t: Seq<char>) -> bool {
    is_named_number(t) || is_decimal_number(t)
}

/// `Float`: whether a text is a number, as the size of a window must be.
pub open spec fn is_size_text(t: Seq<char>) -> bool {
    ||| is_unsigned_number(t)
    ||| t.len() >= 1 && is_sign(t[0]) && is_unsigned_number(t.skip(1))
}

/// Where the digits that start at `from` end: at the first character at or
/// after `from` that is no digit, or at the end of the text.
pub open spec fn digits_end(t: Seq<char>, from: int) -> int
    decreases t.len() - from,
{
    if from >= t.len() {
        t.len() as int
    } else if !is_digit(t[from]) {
        from
    } else {
        digits_end(t, from + 1)
    }
}

/// Whether an exponent stands at `at` and reaches to the end of the text.
pub open spec fn exponent_at(t: Seq<char>, at: int) -> bool {
    let digits = if at + 1 < t.len() && is_sign(t[at + 1]) {
        at + 2
    } else {
        at + 1
    };
    &&& at < t.len()
    &&& is_exponent_mark(t[at])
    &&& digits < t.len()
    &&& digits_end(t, digits) == t.len()
}

/// Where the mantissa of a text ends, read from the left: after the digits,
/// and after a point and the digits behind it, if a point follows.
pub open spec fn mantissa_end(t: Seq<char>) -> int {
    let whole = digits_end(t, 0);
    if whole < t.len() && t[whole] == '.' {
        digits_end(t, whole + 1)
    } else {
        whole
    }
}

/// Whether the mantissa read from the left holds a digit.
pub open spec fn mantissa_has_digit(t: Seq<char>) -> bool {
    let whole = digits_end(t, 0);
    whole >= 1 || mantissa_end(t) >= whole + 2
}

/// A decimal number as it is read from the left: a mantissa with a digit,
/// and then the end of the text or an exponent that reaches to it.
pub open spec fn reads_as_number(t: Seq<char>) -> bool {
    &&& mantissa_has_digit(t)
    &&& mantissa_end(t) == t.len() || exponent_at(t, mantissa_end(t))
}

/// Digits end where the first character stands that is no digit.
pub proof fn lemma_digits_end(t: Seq<char>, from: int, end: int)
    requires
        0 <= from <= end <= t.len(),
        forall|k: int| from <= k < end ==> is_digit(t[k]),
        end == t.len() || !is_digit(t[end]),
    ensures
        digits_end(t, from) == end,
    decreases end - from,
{
    if from < end {
        lemma_digits_end(t, from + 1, end);
    }
}

/// Up to where digits end there are digits only, and no digit follows.
pub proof fn lemma_digits_until_end(t: Seq<char>, from: int)
    requires
        0 <= from <= t.len(),
    ensures
        from <= digits_end(t, from) <= t.len(),
        forall|k: int| from <= k < digits_end(t, from) ==> is_digit(t[k]),
        digits_end(t, from) == t.len() || !is_digit(t[digits_end(t, from)]),
    decreases t.len() - from,
{
    if from < t.len() && is_digit(t[from]) {
        lemma_digits_until_end(t, from + 1);
    }
}

/// A mantissa that is followed by the end of the text, or by a character that
/// is neither digit nor point, is the mantissa that is read from the left.
proof fn lemma_mantissa_is_read(t: Seq<char>, k: int)
    requires
        0 < k <= t.len(),
        is_mantissa(t.take(k)),
        k == t.len() || !is_digit(t[k]) && t[k] != '.',
    ensures
        mantissa_end(t) == k,
        mantissa_has_digit(t),
{
    let m = t.take(k);
    if all_digits(m) {
        assert forall|i: int| 0 <= i < k implies is_digit(t[i]) by {
            assert(m[i] == t[i]);
        }
        lemma_digits_end(t, 0, k);
    } else {
        let j = choose|j: int| splits_at_point(m, j);
        assert(m[j] == t[j]);
        assert forall|i: int| 0 <= i < j implies is_digit(t[i]) by {
            assert(m.take(j)[i] == t[i]);
        }
        lemma_digits_end(t, 0, j);
        assert forall|i: int| j + 1 <= i < k implies is_digit(t[i]) by {
            assert(m.skip(j + 1)[i - j - 1] == t[i]);
        }
        lemma_digits_end(t, j + 1, k);
    }
}

/// Reading from the left finds exactly the decimal numbers.
pub proof fn lemma_reads_as_number(t: Seq<char>)
    ensures
        reads_as_number(t) == is_decimal_number(t),
{
    let whole = digits_end(t, 0);
    let end = mantissa_end(t);
    lemma_digits_until_end(t, 0);
    if whole < t.len() {
        lemma_digits_until_end(t, whole + 1);
    }
    if reads_as_number(t) {
        let m = t.take(end);
        if whole < t.len() && t[whole] == '.' {
            assert(splits_at_point(m, whole)) by {
                assert(m[whole] == '.');
                assert forall|i: int| 0 <= i < m.take(whole).len() implies is_digit(
                    #[trigger] m.take(whole)[i],
                ) by {
                    assert(m.take(whole)[i] == t[i]);
                }
                assert forall|i: int| 0 <= i < m.skip(whole + 1).len() implies is_digit(
                    #[trigger] m.skip(whole + 1)[i],
                ) by {
                    assert(m.skip(whole + 1)[i] == t[i + whole + 1]);
                }
            }
        } else {
            assert forall|i: int| 0 <= i < m.len() implies is_digit(#[trigger] m[i]) by {
                assert(m[i] == t[i]);
            }
        }
        assert(is_mantissa(m));
        if end == t.len() {
            assert(m =~= t);
        } else {
            let x = t.skip(end);
            let digits = if end + 1 < t.len() && is_sign(t[end + 1]) {
                end + 2
            } else {
                end + 1
            };
            lemma_digits_until_end(t, digits);
            assert(x[0] == t[end]);
            if digits == end + 2 {
                assert(x[1] == t[end + 1]);
                assert forall|i: int| 0 <= i < x.skip(2).len() implies is_digit(
                    #[trigger] x.skip(2)[i],
                ) by {
                    assert(x.skip(2)[i] == t[i + end + 2]);
                }
            } else {
                assert forall|i: int| 0 <= i < x.skip(1).len() implies is_digit(
                    #[trigger] x.skip(1)[i],
                ) by {
                    assert(x.skip(1)[i] == t[i + end + 1]);
                }
            }
            assert(is_exponent(x));
            assert(splits_at_exponent(t, end));
        }
    }
    if is_decimal_number(t) {
        if is_mantissa(t) {
            assert(t.take(t.len() as int) =~= t);
            lemma_mantissa_is_read(t, t.len() as int);
        } else {
            let k = choose|k: int| splits_at_exponent(t, k);
            let x = t.skip(k);
            assert(x[0] == t[k]);
            lemma_mantissa_is_read(t, k);
            if all_digits(x.skip(1)) {
                assert(x.skip(1)[0] == t[k + 1]);
                assert forall|i: int| k + 1 <= i < t.len() implies is_digit(t[i]) by {
                    assert(x.skip(1)[i - k - 1] == t[i]);
                }
                lemma_digits_end(t, k + 1, t.len() as int);
            } else {
                assert(x[1] == t[k + 1]);
                assert forall|i: int| k + 2 <= i < t.len() implies is_digit(t[i]) by {
                    assert(x.skip(2)[i - k - 2] == t[i]);
                }
                lemma_digits_end(t, k + 2, t.len() as int);
            }
        }
    }
}

/// A number holds no comma.
pub proof fn lemma_number_has_no_comma(t: Seq<char>)
    requires
        is_size_text(t),
    ensures
        forall|i: int| 0 <= i < t.len() ==> t[i] != ',',
{
    let u = if is_unsigned_number(t) {
        t
    } else {
        t.skip(1)
    };
    let shift = t.len() - u.len();
    assert forall|i: int| 0 <= i < u.len() implies u[i] != ',' by {
        if is_named_number(u) {
            let inf = seq!['i', 'n', 'f'];
            let infinity = seq!['i', 'n', 'f', 'i', 'n', 'i', 't', 'y'];
            let nan = seq!['n', 'a', 'n'];
            assert(inf[0] == 'i' && inf[1] == 'n' && inf[2] == 'f');
            assert(nan[0] == 'n' && nan[1] == 'a' && nan[2] == 'n');
            assert(infinity[0] == 'i' && infinity[1] == 'n' && infinity[2] == 'f' && infinity[3]
                == 'i' && infinity[4] == 'n' && infinity[5] == 'i' && infinity[6] == 't'
                && infinity[7] == 'y');
            let big_inf = seq!['I', 'N', 'F'];
            let big_infinity = seq!['I', 'N', 'F', 'I', 'N', 'I', 'T', 'Y'];
            let big_nan = seq!['N', 'A', 'N'];
            assert(big_inf[0] == 'I' && big_inf[1] == 'N' && big_inf[2] == 'F');
            assert(big_nan[0] == 'N' && big_nan[1] == 'A' && big_nan[2] == 'N');
            assert(big_infinity[0] == 'I' && big_infinity[1] == 'N' && big_infinity[2] == 'F'
                && big_infinity[3] == 'I' && big_infinity[4] == 'N' && big_infinity[5] == 'I'
                && big_infinity[6] == 'T' && big_infinity[7] == 'Y');
            assert(u[i] == u[i]);
        } else {
            lemma_reads_as_number(u);
            let whole = digits_end(u, 0);
            let end = mantissa_end(u);
            lemma_digits_until_end(u, 0);
            if whole < u.len() {
                lemma_digits_until_end(u, whole + 1);
            }
            if end < u.len() {
                let digits = if end + 1 < u.len() && is_sign(u[end + 1]) {
                    end + 2
                } else {
                    end + 1
                };
                lemma_digits_until_end(u, digits);
            }
        }
    }
    assert forall|i: int| 0 <= i < t.len() implies t[i] != ',' by {
        if i >= shift {
            assert(u[i - shift] == t[i]);
        }
    }
}

fn skip_digits(text: &Vec<char>, from: usize) -> (end: usize)
    requires
        from <= text.len(),
    ensures
        end == digits_end(text@, from as int),
        from <= end <= text.len(),
{
    let mut end = from;
    while end < text.len() && '0' <= text[end] && text[end] <= '9'
        invariant
            from <= end <= text.len(),
            forall|k: int| from <= k < end ==> is_digit(text@[k]),
        decreases text.len() - end,
    {
        end += 1;
    }
    proof {
        lemma_digits_end(text@, from as int, end as int);
    }
    end
}

fn is_word(text: &Vec<char>, lower: &Vec<char>, upper: &Vec<char>) -> (r: bool)
    requires
        lower.len() == upper.len(),
    ensures
        r == spells(text@, lower@, upper@),
{
    if text.len() != lower.len() {
        return false;
    }
    let mut i: usize = 0;
    while i < text.len()
        invariant
            i <= text.len(),
            text.len() == lower.len(),
            lower.len() == upper.len(),
            forall|k: int| 0 <= k < i ==> (#[trigger] text@[k]) == lower@[k] || text@[k] == upper@[k],
        decreases text.len() - i,
    {
        if text[i] != lower[i] && text[i] != upper[i] {
            return false;
        }
        i += 1;
    }
    true
}

fn is_named(text: &Vec<char>) -> (r: bool)
    ensures
        r == is_named_number(text@),
{
    let inf = vec!['i', 'n', 'f'];
    let big_inf = vec!['I', 'N', 'F'];
    let infinity = vec!['i', 'n', 'f', 'i', 'n', 'i', 't', 'y'];
    let big_infinity = vec!['I', 'N', 'F', 'I', 'N', 'I', 'T', 'Y'];
    let nan = vec!['n', 'a', 'n'];
    let big_nan = vec!['N', 'A', 'N'];
    is_word(text, &inf, &big_inf) || is_word(text, &infinity, &big_infinity) || is_word(
        text,
        &nan,
        &big_nan,
    )
}

fn is_decimal(text: &Vec<char>) -> (r: bool)
    ensures
        r == is_decimal_number(text@),
{
    proof {
        lemma_reads_as_number(text@);
    }
    let whole = skip_digits(text, 0);
    let end = if whole < text.len() && text[whole] == '.' {
        skip_digits(text, whole + 1)
    } else {
        whole
    };
    if whole == 0 && end < 2 {
        return false;
    }
    if end == text.len() {
        return true;
    }
    if text[end] != 'e' && text[end] != 'E' {
        return false;
    }
    let digits = if end + 1 < text.len() && (text[end + 1] == '+' || text[end + 1] == '-') {
        end + 2
    } else {
        end + 1
    };
    digits < text.len() && skip_digits(text, digits) == text.len()
}

/// Tells whether a run of characters is a number.
pub fn is_size(text: &Vec<char>) -> (r: bool)
    ensures
        r == is_size_text(text@),
{
    if is_named(text) || is_decimal(text) {
        return true;
    }
    if text.len() == 0 || (text[0] != '+' && text[0] != '-') {
        return false;
    }
    let mut rest: Vec<char> = Vec::new();
    let mut i: usize = 1;
    while i < text.len()
        invariant
            1 <= i <= text.len(),
            rest@ == text@.subrange(1, i as int),
        decreases text.len() - i,
    {
        rest.push(text[i]);
        assert(text@.subrange(1, i + 1) =~= text@.subrange(1, i as int).push(text@[i as int]));
        i += 1;
    }
    assert(rest@ =~= text@.skip(1));
    is_named(&rest) || is_decimal(&rest)
}

} // verus!
