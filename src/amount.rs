//! The reading of a whole amount: sign, baht and satang.
use vstd::prelude::*;

use crate::reading::{
    all_digits, convert_multiple_millions, convert_special_two_digits, group_text, is_digit_char,
    is_digit_string, is_group, leading_text, lemma_million_groups_are_groups, million_groups,
    split_million_sequence, two_digit_text,
};
use crate::words::{
    baht_word, digit_char, even_word, is_digit, million_word, negative_word, satang_word,
};

verus! {

/// Why an amount could not be read.
#[derive(Debug, Clone, Copy, PartialEq, Eq, Structural)]
pub enum AmountError {
    /// The text is not a fixed-point amount with two decimals (as a
    /// non-finite number would format).
    InvalidAmount,
}

/// The amount text starts with a minus sign.
pub open spec fn is_negative(s: Seq<char>) -> bool {
    s.len() > 0 && s[0] == '-'
}

/// The length of the sign in front of the digits.
pub open spec fn sign_len(s: Seq<char>) -> int {
    if is_negative(s) {
        1
    } else {
        0
    }
}

/// The digits of the whole baht, between the sign and the decimal point.
pub open spec fn integer_digits(s: Seq<char>) -> Seq<char> {
    s.subrange(sign_len(s), s.len() - 3)
}

/// A fixed-point amount: an optional minus sign, one or more digits, a point
/// and exactly two digits.
pub open spec fn is_amount(s: Seq<char>) -> bool {
    &&& s.len() >= sign_len(s) + 4
    &&& s[s.len() - 3] == '.'
    &&& all_digits(integer_digits(s))
    &&& is_digit(s[s.len() - 2])
    &&& is_digit(s[s.len() - 1])
}

/// The reading of the first `k` groups, each but the last of all followed by
/// the "million" separator.
pub open spec fn joined_text(gs: Seq<Seq<char>>, k: int) -> Seq<char>
    decreases k,
{
    if k <= 0 {
        Seq::empty()
    } else {
        joined_text(gs, k - 1) + group_text(gs[k - 1]) + (if k < gs.len() {
            million_word()
        } else {
            Seq::<char>::empty()
        })
    }
}

/// The reading of a whole number of baht given by its digits.
pub open spec fn integer_text(d: Seq<char>) -> Seq<char> {
    joined_text(million_groups(d), million_groups(d).len() as int)
}

/// The reading of the two satang digits: "even" when both are zero,
/// otherwise the pair followed by "satang".
pub open spec fn satang_text(a: char, b: char) -> Seq<char> {
    if a == '0' && b == '0' {
        even_word()
    } else {
        two_digit_text(a, b) + satang_word()
    }
}

/// The reading of a fixed-point amount.
pub open spec fn amount_text(s: Seq<char>) -> Seq<char> {
    (if is_negative(s) {
        negative_word()
    } else {
        Seq::<char>::empty()
    }) + integer_text(integer_digits(s)) + baht_word() + satang_text(s[s.len() - 2], s[s.len() - 1])
}

/// Reads a fixed-point amount with two decimals (`"-1234.50"`) in Thai words.
pub fn baht_text(amount: &str) -> (r: Result<String, AmountError>)
    ensures
        match r {
            Ok(t) => is_amount(amount@) && t@ == amount_text(amount@),
            Err(e) => !is_amount(amount@) && e == AmountError::InvalidAmount,
        },
{
    let ghost s = amount@;
    let n = amount.unicode_len();
    let negative = n > 0 && amount.get_char(0) == '-';
    let sign: usize = if negative {
        1
    } else {
        0
    };
    if n < sign + 4 || amount.get_char(n - 3) != '.' {
        return Err(AmountError::InvalidAmount);
    }
    let int_part = amount.substring_char(sign, n - 3);
    let a = amount.get_char(n - 2);
    let b = amount.get_char(n - 1);
    if !is_digit_string(int_part) || !is_digit_char(a) || !is_digit_char(b) {
        return Err(AmountError::InvalidAmount);
    }
    proof {
        reveal_strlit("");
        lemma_million_groups_are_groups(int_part@);
    }
    let mut baht_string = String::new();
    if negative {
        baht_string.append("ลบ");
    }
    let ghost prefix = baht_string@;
    let ghost gs = million_groups(int_part@);
    let groups = split_million_sequence(int_part);
    let mut k: usize = 0;
    while k < groups.len()
        invariant
            groups@.len() == gs.len(),
            forall|i: int| 0 <= i < groups@.len() ==> (#[trigger] groups@[i])@ == gs[i],
            forall|i: int| 0 <= i < gs.len() ==> is_group(#[trigger] gs[i]),
            k <= groups@.len(),
            baht_string@ == prefix + joined_text(gs, k as int),
        decreases groups@.len() - k,
    {
        let group = convert_multiple_millions(groups[k].as_str());
        baht_string.append(group.as_str());
        if k + 1 < groups.len() {
            baht_string.append("ล้าน");
        }
        assert(baht_string@ =~= prefix + joined_text(gs, k + 1));
        k += 1;
    }
    baht_string.append("บาท");
    if a == '0' && b == '0' {
        baht_string.append("ถ้วน");
    } else {
        let pair = amount.substring_char(n - 2, n);
        let satang = convert_special_two_digits(pair);
        baht_string.append(satang.as_str());
        baht_string.append("สตางค์");
    }
    assert(baht_string@ =~= amount_text(s));
    Ok(baht_string)
}

/// `t` ends with `w`.
pub open spec fn ends_with(t: Seq<char>, w: Seq<char>) -> bool {
    t.len() >= w.len() && t.subrange(t.len() - w.len(), t.len() as int) == w
}

/// The reading of every amount ends either with "even" or with "satang",
/// never with both.
pub proof fn lemma_ends_even_or_satang(s: Seq<char>)
    requires
        is_amount(s),
    ensures
        ends_with(amount_text(s), even_word()) != ends_with(amount_text(s), satang_word()),
{
    reveal_strlit("ถ้วน");
    reveal_strlit("สตางค์");
    let t = amount_text(s);
    let a = s[s.len() - 2];
    let b = s[s.len() - 1];
    let head = (if is_negative(s) {
        negative_word()
    } else {
        Seq::<char>::empty()
    }) + integer_text(integer_digits(s)) + baht_word();
    if a == '0' && b == '0' {
        assert(t == head + even_word());
        assert(t.subrange(t.len() - even_word().len(), t.len() as int) =~= even_word());
        assert(t.last() == even_word().last());
    } else {
        let w = two_digit_text(a, b) + satang_word();
        assert(t =~= (head + two_digit_text(a, b)) + satang_word());
        assert(t.subrange(t.len() - satang_word().len(), t.len() as int) =~= satang_word());
        assert(t.last() == satang_word().last());
    }
    if ends_with(t, even_word()) {
        assert(t.subrange(t.len() - even_word().len(), t.len() as int).last() == t.last());
    }
    if ends_with(t, satang_word()) {
        assert(t.subrange(t.len() - satang_word().len(), t.len() as int).last() == t.last());
    }
}

/// A minus sign in front of an amount only puts the word for "minus" in
/// front of its reading.
pub proof fn lemma_negative_prefix(s: Seq<char>)
    requires
        is_amount(s),
        !is_negative(s),
    ensures
        is_amount(seq!['-'] + s),
        amount_text(seq!['-'] + s) == negative_word() + amount_text(s),
{
    let m = seq!['-'] + s;
    assert(is_negative(m));
    assert(integer_digits(m) =~= integer_digits(s));
    assert(m[m.len() - 3] == s[s.len() - 3]);
    assert(m[m.len() - 2] == s[s.len() - 2]);
    assert(m[m.len() - 1] == s[s.len() - 1]);
    assert(amount_text(m) =~= negative_word() + amount_text(s));
}

/// The decimal digits of a natural number, without leading zeros.
pub open spec fn decimal_digits(v: nat) -> Seq<char>
    decreases v,
{
    if v < 10 {
        seq![digit_char(v as int)]
    } else {
        decimal_digits(v / 10).push(digit_char((v % 10) as int))
    }
}

proof fn lemma_decimal_digits_times_ten(v: nat)
    requires
        v >= 1,
    ensures
        decimal_digits(10 * v) == decimal_digits(v).push('0'),
{
    assert((10 * v) / 10 == v);
    assert((10 * v) % 10 == 0);
}

proof fn lemma_decimal_digits_are_digits(v: nat)
    ensures
        all_digits(decimal_digits(v)),
        decimal_digits(v).len() >= 1,
    decreases v,
{
    if v >= 10 {
        lemma_decimal_digits_are_digits(v / 10);
    }
}

/// A whole number of millions below a hundred million is read as its count of
/// millions, exactly one "million" separator, and "baht even": its digits fall
/// into two groups, of which the last reads as nothing.
pub proof fn lemma_whole_millions(k: nat)
    requires
        1 <= k <= 99,
    ensures
        is_amount(decimal_digits(1000000 * k) + ".00"@),
        million_groups(integer_digits(decimal_digits(1000000 * k) + ".00"@)).len() == 2,
        amount_text(decimal_digits(1000000 * k) + ".00"@) == group_text(decimal_digits(k))
            + million_word() + baht_word() + even_word(),
{
    reveal_strlit(".00");
    lemma_decimal_digits_times_ten(k);
    lemma_decimal_digits_times_ten(10 * k);
    lemma_decimal_digits_times_ten(100 * k);
    lemma_decimal_digits_times_ten(1000 * k);
    lemma_decimal_digits_times_ten(10000 * k);
    lemma_decimal_digits_times_ten(100000 * k);
    let dk = decimal_digits(k);
    let zeros = seq!['0', '0', '0', '0', '0', '0'];
    let d = decimal_digits(1000000 * k);
    assert(d =~= dk + zeros);
    if k >= 10 {
        assert(decimal_digits((k / 10) as nat).len() == 1);
    }
    assert(1 <= dk.len() <= 2);
    lemma_decimal_digits_are_digits(k);
    lemma_decimal_digits_are_digits(1000000 * k);
    let s = d + ".00"@;
    assert(integer_digits(s) =~= d);
    assert(is_amount(s));
    let gs = million_groups(d);
    assert(gs.len() == 2);
    assert(gs[0] =~= dk);
    assert(gs[1] =~= zeros);
    assert(leading_text(zeros, 4) =~= Seq::<char>::empty()) by {
        reveal_with_fuel(leading_text, 5);
    }
    assert(group_text(zeros) =~= Seq::<char>::empty());
    reveal_with_fuel(joined_text, 3);
    assert(integer_text(d) =~= group_text(dk) + million_word());
    assert(amount_text(s) =~= group_text(dk) + million_word() + baht_word() + even_word());
}

} // verus!
