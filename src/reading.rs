//! Reading a run of at most six digits, and cutting a digit string into
//! such runs.
use vstd::prelude::*;

use crate::words::{
    digit_word, ed_word, is_digit, magnitude_word, ten_word, thai_multiplier, thai_number, twenty_word,
};

verus! {

/// Every character of `s` is a decimal digit.
pub open spec fn all_digits(s: Seq<char>) -> bool {
    forall|i: int| 0 <= i < s.len() ==> is_digit(#[trigger] s[i])
}

/// The reading of the tens digit `t` of a pair: nothing for zero, "ten" alone
/// for one, "yii ten" for two, and the digit word before "ten" otherwise.
pub open spec fn tens_text(t: char) -> Seq<char> {
    if t == '0' {
        Seq::empty()
    } else if t == '1' {
        ten_word()
    } else if t == '2' {
        twenty_word() + ten_word()
    } else {
        digit_word(t) + ten_word()
    }
}

/// The reading of the units digit `u` after the tens digit `t`: nothing for
/// zero, "ed" for one after a nonzero tens digit, the digit word otherwise.
pub open spec fn units_text(t: char, u: char) -> Seq<char> {
    if u == '0' {
        Seq::empty()
    } else if t != '0' && u == '1' {
        ed_word()
    } else {
        digit_word(u)
    }
}

/// The reading of the last two digits of a group.
pub open spec fn two_digit_text(t: char, u: char) -> Seq<char> {
    tens_text(t) + units_text(t, u)
}

/// The reading of one digit `c` that stands `m` places from the end of its
/// group, for `m >= 2`: silent when zero.
pub open spec fn place_text(c: char, m: int) -> Seq<char> {
    if c == '0' {
        Seq::empty()
    } else {
        digit_word(c) + magnitude_word(m)
    }
}

/// The reading of the first `k` digits of group `g`.
pub open spec fn leading_text(g: Seq<char>, k: int) -> Seq<char>
    decreases k,
{
    if k <= 0 {
        Seq::empty()
    } else {
        leading_text(g, k - 1) + place_text(g[k - 1], g.len() - k)
    }
}

/// A group: one to six decimal digits.
pub open spec fn is_group(g: Seq<char>) -> bool {
    1 <= g.len() <= 6 && all_digits(g)
}

/// The reading of a group: a lone digit is read by its word; otherwise the
/// digits before the last two are read with their magnitudes, and the last
/// two as a pair.
pub open spec fn group_text(g: Seq<char>) -> Seq<char> {
    if g.len() == 1 {
        digit_word(g[0])
    } else {
        leading_text(g, g.len() - 2) + two_digit_text(g[g.len() - 2], g[g.len() - 1])
    }
}

/// A "one" in the tens place is never read with the generic word for one:
/// the pair starts with "ten" itself. A "one" in the units place after a
/// nonzero tens digit is always read "ed", never with the generic word.
pub proof fn lemma_one_in_pairs(t: char, u: char)
    requires
        is_digit(t),
        is_digit(u),
    ensures
        two_digit_text('1', u) == ten_word() + units_text('1', u),
        !(two_digit_text('1', u).len() >= digit_word('1').len() && two_digit_text('1', u).subrange(
            0,
            digit_word('1').len() as int,
        ) == digit_word('1')),
        t != '0' ==> two_digit_text(t, '1') == tens_text(t) + ed_word(),
        ed_word() != digit_word('1'),
{
    reveal_strlit("สิบ");
    reveal_strlit("หนึ่ง");
    reveal_strlit("เอ็ด");
    let r = two_digit_text('1', u);
    assert(r[0] == ten_word()[0]);
    if r.len() >= digit_word('1').len() && r.subrange(0, digit_word('1').len() as int) == digit_word('1') {
        assert(r.subrange(0, digit_word('1').len() as int)[0] == r[0]);
    }
    assert(ed_word()[0] != digit_word('1')[0]);
}

/// Reads a pair of digits as the last two digits of a number.
pub fn convert_special_two_digits(int_string: &str) -> (r: String)
    requires
        int_string@.len() == 2,
        all_digits(int_string@),
    ensures
        r@ == two_digit_text(int_string@[0], int_string@[1]),
{
    let t = int_string.get_char(0);
    let u = int_string.get_char(1);
    let mut baht_string = String::new();
    proof {
        reveal_strlit("");
    }
    if t == '2' {
        baht_string.append("ยี่");
    } else if t != '0' && t != '1' {
        baht_string.append(thai_number(t));
    }
    if t != '0' {
        baht_string.append("สิบ");
    }
    assert(baht_string@ == tens_text(t));
    if u == '0' {
    } else if t == '0' {
        baht_string.append(thai_number(u));
    } else if u == '1' {
        baht_string.append("เอ็ด");
    } else {
        baht_string.append(thai_number(u));
    }
    baht_string
}

/// Whether a character is a decimal digit.
pub fn is_digit_char(c: char) -> (r: bool)
    ensures
        r == is_digit(c),
{
    '0' <= c && c <= '9'
}

/// Whether every character of a string is a decimal digit.
pub fn is_digit_string(s: &str) -> (r: bool)
    ensures
        r == all_digits(s@),
{
    let n = s.unicode_len();
    let mut i: usize = 0;
    while i < n
        invariant
            n == s@.len(),
            i <= n,
            forall|j: int| 0 <= j < i ==> is_digit(#[trigger] s@[j]),
        decreases n - i,
    {
        if !is_digit_char(s.get_char(i)) {
            return false;
        }
        i += 1;
    }
    true
}

/// Reads a group of one to six digits; anything else reads as nothing.
pub fn convert_multiple_millions(int_string: &str) -> (r: String)
    ensures
        r@ == (if is_group(int_string@) {
            group_text(int_string@)
        } else {
            Seq::<char>::empty()
        }),
{
    let ghost g = int_string@;
    let n = int_string.unicode_len();
    if n < 1 || n > 6 || !is_digit_string(int_string) {
        return String::new();
    }
    if n == 1 {
        return String::from_str(thai_number(int_string.get_char(0)));
    }
    let mut baht_string = String::new();
    let mut k: usize = 0;
    while k < n - 2
        invariant
            g == int_string@,
            n == g.len(),
            2 <= n <= 6,
            k <= n - 2,
            all_digits(g),
            baht_string@ == leading_text(g, k as int),
        decreases n - 2 - k,
    {
        let c = int_string.get_char(k);
        if c != '0' {
            baht_string.append(thai_number(c));
            baht_string.append(thai_multiplier(n - k - 1));
        }
        proof {
            reveal_strlit("");
        }
        k += 1;
    }
    let pair = int_string.substring_char(n - 2, n);
    let last_two = convert_special_two_digits(pair);
    baht_string.append(last_two.as_str());
    baht_string
}

/// The number of six-digit groups in a digit string of length `n`.
pub open spec fn group_count(n: int) -> int {
    (n + 5) / 6
}

/// Where group `i` of a digit string of length `n` ends: every group ends a
/// multiple of six places from the right.
pub open spec fn group_end(n: int, i: int) -> int {
    n - 6 * (group_count(n) - 1 - i)
}

/// Where group `i` of a digit string of length `n` starts: six places before
/// its end, or at the start for the leftmost group.
pub open spec fn group_start(n: int, i: int) -> int {
    if group_end(n, i) >= 6 {
        group_end(n, i) - 6
    } else {
        0
    }
}

/// A digit string cut into groups of six counted from the right, most
/// significant group first; only the leftmost group may be shorter.
pub open spec fn million_groups(d: Seq<char>) -> Seq<Seq<char>> {
    Seq::new(
        group_count(d.len() as int) as nat,
        |i: int| d.subrange(group_start(d.len() as int, i), group_end(d.len() as int, i)),
    )
}

/// Each group of a nonempty digit string holds one to six digits.
pub proof fn lemma_million_groups_are_groups(d: Seq<char>)
    requires
        d.len() >= 1,
        all_digits(d),
    ensures
        forall|i: int| 0 <= i < million_groups(d).len() ==> is_group(#[trigger] million_groups(d)[i]),
{
    let n = d.len() as int;
    assert(6 * (group_count(n) - 1) < n <= 6 * group_count(n));
    assert forall|i: int| 0 <= i < million_groups(d).len() implies is_group(#[trigger] million_groups(d)[i]) by {
        let g = million_groups(d)[i];
        assert(1 <= group_end(n, i) <= n);
        assert forall|j: int| 0 <= j < g.len() implies is_digit(#[trigger] g[j]) by {
            assert(g[j] == d[group_start(n, i) + j]);
        }
    }
}

/// Cuts a digit string into groups of six counted from the right, most
/// significant group first.
pub fn split_million_sequence(seq: &str) -> (r: Vec<String>)
    ensures
        r@.len() == million_groups(seq@).len(),
        forall|i: int| 0 <= i < r@.len() ==> (#[trigger] r@[i])@ == million_groups(seq@)[i],
{
    let ghost d = seq@;
    let n = seq.unicode_len();
    let count = n / 6 + if n % 6 == 0 { 0 } else { 1 };
    assert(count == group_count(n as int));
    assert(n == 0 || 6 * (count - 1) < n <= 6 * count);
    let mut groups: Vec<String> = Vec::new();
    let mut i: usize = 0;
    while i < count
        invariant
            d == seq@,
            n == d.len(),
            count == group_count(n as int),
            i <= count,
            groups@.len() == i,
            forall|j: int| 0 <= j < i ==> (#[trigger] groups@[j])@ == million_groups(d)[j],
        decreases count - i,
    {
        let end = n - 6 * (count - 1 - i);
        let start = if end >= 6 { end - 6 } else { 0 };
        assert(end == group_end(n as int, i as int) && start == group_start(n as int, i as int));
        groups.push(String::from_str(seq.substring_char(start, end)));
        assert(groups@[i as int]@ == million_groups(d)[i as int]);
        i += 1;
    }
    groups
}

} // verus!
