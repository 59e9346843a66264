//! Decimal text of integers, the form every identifier and SQL literal takes.

use vstd::prelude::*;

verus! {

/// The mathematical content of a string.
pub type Text = Seq<char>;

/// The character that stands for one decimal digit.
pub open spec fn digit_char(d: int) -> char {
    if d == 0 {
        '0'
    } else if d == 1 {
        '1'
    } else if d == 2 {
        '2'
    } else if d == 3 {
        '3'
    } else if d == 4 {
        '4'
    } else if d == 5 {
        '5'
    } else if d == 6 {
        '6'
    } else if d == 7 {
        '7'
    } else if d == 8 {
        '8'
    } else {
        '9'
    }
}

/// The digits of a natural number, most significant first, without leading zeros.
pub open spec fn decimal_digits(n: nat) -> Text
    decreases n,
{
    if n < 10 {
        seq![digit_char(n as int)]
    } else {
        decimal_digits(n / 10).push(digit_char((n % 10) as int))
    }
}

/// The decimal text of an integer: a minus sign for a negative one, then its digits.
pub open spec fn decimal_text(k: int) -> Text {
    if k < 0 {
        seq!['-'] + decimal_digits((-k) as nat)
    } else {
        decimal_digits(k as nat)
    }
}

/// Different digits have different characters, and none of them is the minus sign.
pub proof fn lemma_digit_char_injective(a: int, b: int)
    requires
        0 <= a < 10,
        0 <= b < 10,
        digit_char(a) == digit_char(b),
    ensures
        a == b,
        digit_char(a) != '-',
{
}

/// The digits of a number are never empty and never start with a minus sign.
pub proof fn lemma_decimal_digits_shape(n: nat)
    ensures
        decimal_digits(n).len() >= 1,
        decimal_digits(n)[0] != '-',
    decreases n,
{
    if n >= 10 {
        lemma_decimal_digits_shape(n / 10);
    }
}

/// Two natural numbers with the same digits are the same number.
pub proof fn lemma_decimal_digits_injective(a: nat, b: nat)
    requires
        decimal_digits(a) == decimal_digits(b),
    ensures
        a == b,
    decreases a,
{
    if a < 10 {
        assert(decimal_digits(a) =~= seq![digit_char(a as int)]);
        assert(decimal_digits(a).len() == 1);
        if b < 10 {
            assert(decimal_digits(b) =~= seq![digit_char(b as int)]);
            assert(decimal_digits(a)[0] == digit_char(a as int));
            assert(decimal_digits(b)[0] == digit_char(b as int));
            lemma_digit_char_injective(a as int, b as int);
        } else {
            lemma_decimal_digits_shape(b / 10);
            assert(decimal_digits(b).len() == decimal_digits(b / 10).len() + 1);
        }
    } else {
        let da = decimal_digits(a / 10);
        let ca = digit_char((a % 10) as int);
        lemma_decimal_digits_shape(a / 10);
        assert(decimal_digits(a) == da.push(ca));
        assert(decimal_digits(a).len() == da.len() + 1);
        if b < 10 {
            assert(decimal_digits(b) =~= seq![digit_char(b as int)]);
            assert(decimal_digits(b).len() == 1);
        } else {
            let db = decimal_digits(b / 10);
            let cb = digit_char((b % 10) as int);
            assert(decimal_digits(b) == db.push(cb));
            assert(da.push(ca).drop_last() =~= da);
            assert(db.push(cb).drop_last() =~= db);
            assert(da.push(ca).last() == ca);
            assert(db.push(cb).last() == cb);
            assert(da == db);
            assert(ca == cb);
            lemma_digit_char_injective((a % 10) as int, (b % 10) as int);
            lemma_decimal_digits_injective(a / 10, b / 10);
            assert(a / 10 == b / 10);
            assert(a % 10 == b % 10);
        }
    }
}

/// Two integers with the same decimal text are the same integer.
pub proof fn lemma_decimal_text_injective(a: int, b: int)
    requires
        decimal_text(a) == decimal_text(b),
    ensures
        a == b,
{
    let na = (if a < 0 { -a } else { a }) as nat;
    let nb = (if b < 0 { -b } else { b }) as nat;
    lemma_decimal_digits_shape(na);
    lemma_decimal_digits_shape(nb);
    let minus = seq!['-'];
    if a < 0 && b < 0 {
        assert((minus + decimal_digits(na)).skip(1) =~= decimal_digits(na));
        assert((minus + decimal_digits(nb)).skip(1) =~= decimal_digits(nb));
        lemma_decimal_digits_injective(na, nb);
    } else if a >= 0 && b >= 0 {
        lemma_decimal_digits_injective(na, nb);
    } else if a < 0 {
        assert((minus + decimal_digits(na))[0] == '-');
    } else {
        assert((minus + decimal_digits(nb))[0] == '-');
    }
}

/// The decimal text of `value`, as `i128::to_string` writes it: this states that
/// std prints an integer as an optional minus sign followed by its digits without
/// leading zeros.
#[verifier::external_body]
pub(crate) fn render_decimal(value: i128) -> (text: String)
    ensures
        text@ == decimal_text(value as int),
{
    value.to_string()
}

/// The text `true` or `false`.
pub open spec fn flag_text(flag: bool) -> Text {
    if flag {
        "true"@
    } else {
        "false"@
    }
}

/// A flag as text, as std prints it.
pub fn render_flag(flag: bool) -> (text: String)
    ensures
        text@ == flag_text(flag),
{
    if flag {
        "true".to_string()
    } else {
        "false".to_string()
    }
}

/// A copy of an optional string.
pub fn clone_opt_text(text: &Option<String>) -> (copy: Option<String>)
    ensures
        copy == *text,
{
    match text {
        Some(s) => Some(s.clone()),
        None => None,
    }
}

} // verus!
