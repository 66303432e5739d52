//! Written Thai reading of a monetary amount ("baht text"), as used on
//! cheques and financial documents.
//!
//! An amount is given in fixed-point form with two decimals, an optional
//! minus sign in front (`"-1234.50"`). Its whole part is cut into groups of six
//! digits counted from the right, each group is read with the positional
//! words, and the groups are joined by the word for "million"; the currency
//! word follows, and then either the satang reading or the word for "even".
pub mod amount;
pub mod reading;
pub mod words;

pub use amount::{baht_text, AmountError};
pub use reading::{
    convert_multiple_millions, convert_special_two_digits, is_digit_string, split_million_sequence,
};
pub use words::{create_thai_numbers_map, thai_multiplier, thai_number};
