//! The Thai number words and the positional magnitude words.
use vstd::prelude::*;

verus! {

/// A decimal digit character.
pub open spec fn is_digit(c: char) -> bool {
    '0' <= c && c <= '9'
}

/// The generic Thai word for a digit character.
pub open spec fn digit_word(c: char) -> Seq<char> {
    if c == '0' {
        "ศูนย์"@
    } else if c == '1' {
        "หนึ่ง"@
    } else if c == '2' {
        "สอง"@
    } else if c == '3' {
        "สาม"@
    } else if c == '4' {
        "สี่"@
    } else if c == '5' {
        "ห้า"@
    } else if c == '6' {
        "หก"@
    } else if c == '7' {
        "เจ็ด"@
    } else if c == '8' {
        "แปด"@
    } else {
        "เก้า"@
    }
}

/// The digit character for a value below ten.
pub open spec fn digit_char(d: int) -> char {
    if d == 0 {
        '0'
    } else if d == 1 {
        '1'
    } else if d == 2 {
        '2'
    } else if d == 3 {
        '3'
    } else if d == 4 {
        '4'
    } else if d == 5 {
        '5'
    } else if d == 6 {
        '6'
    } else if d == 7 {
        '7'
    } else if d == 8 {
        '8'
    } else {
        '9'
    }
}

/// The multiplier word for a digit that stands `m` places from the end of
/// its group: ten, hundred, thousand, ten thousand, hundred thousand.
pub open spec fn magnitude_word(m: int) -> Seq<char> {
    if m == 1 {
        "สิบ"@
    } else if m == 2 {
        "ร้อย"@
    } else if m == 3 {
        "พัน"@
    } else if m == 4 {
        "หมื่น"@
    } else if m == 5 {
        "แสน"@
    } else if m == 6 {
        "ล้าน"@
    } else {
        Seq::empty()
    }
}

/// "ten"
pub open spec fn ten_word() -> Seq<char> {
    "สิบ"@
}

/// The special tens word read in place of "two" before "ten".
pub open spec fn twenty_word() -> Seq<char> {
    "ยี่"@
}

/// The word read in place of "one" after a nonzero tens digit.
pub open spec fn ed_word() -> Seq<char> {
    "เอ็ด"@
}

/// The separator between groups of six digits ("million").
pub open spec fn million_word() -> Seq<char> {
    "ล้าน"@
}

/// The sign word for a negative amount.
pub open spec fn negative_word() -> Seq<char> {
    "ลบ"@
}

/// The currency unit.
pub open spec fn baht_word() -> Seq<char> {
    "บาท"@
}

/// The sub-unit, one hundredth of a baht.
pub open spec fn satang_word() -> Seq<char> {
    "สตางค์"@
}

/// The marker for an amount without satang ("even").
pub open spec fn even_word() -> Seq<char> {
    "ถ้วน"@
}

/// The Thai word for a digit character.
pub fn thai_number(c: char) -> (r: &'static str)
    requires
        is_digit(c),
    ensures
        r@ == digit_word(c),
{
    match c {
        '0' => "ศูนย์",
        '1' => "หนึ่ง",
        '2' => "สอง",
        '3' => "สาม",
        '4' => "สี่",
        '5' => "ห้า",
        '6' => "หก",
        '7' => "เจ็ด",
        '8' => "แปด",
        _ => "เก้า",
    }
}

/// The multiplier word for a digit `m` places from the end of its group.
pub fn thai_multiplier(m: usize) -> (r: &'static str)
    ensures
        r@ == magnitude_word(m as int),
{
    match m {
        1 => "สิบ",
        2 => "ร้อย",
        3 => "พัน",
        4 => "หมื่น",
        5 => "แสน",
        6 => "ล้าน",
        _ => {
            proof {
                reveal_strlit("");
            }
            ""
        },
    }
}

/// The table of digit words, indexed by the digit's value.
pub fn create_thai_numbers_map() -> (r: Vec<&'static str>)
    ensures
        r@.len() == 10,
        forall|d: int| 0 <= d < 10 ==> (#[trigger] r@[d])@ == digit_word(digit_char(d)),
{
    let mut map: Vec<&'static str> = Vec::new();
    map.push(thai_number('0'));
    map.push(thai_number('1'));
    map.push(thai_number('2'));
    map.push(thai_number('3'));
    map.push(thai_number('4'));
    map.push(thai_number('5'));
    map.push(thai_number('6'));
    map.push(thai_number('7'));
    map.push(thai_number('8'));
    map.push(thai_number('9'));
    map
}

} // verus!
