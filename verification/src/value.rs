//! The native types a bound value can be read as.
//!
//! A value is bound as raw text. Reading it back as a native type succeeds
//! when the text denotes a value of that type, by the grammar of the type,
//! and the type belongs to the kind of the option.

use crate::literal::{
    is_boolean_literal, is_boolean_text, is_floating_point_literal, is_floating_point_text,
    is_signed_text, is_unsigned_text, literal_value, magnitude, parse_signed, parse_unsigned,
};
use crate::option_type::NativeType;
use crate::text::to_chars;
use vstd::prelude::*;

verus! {

/// A native type that a bound value can be read as.
pub trait OptionValue: Sized {
    /// The native type that `Self` is.
    spec fn native_type() -> NativeType;

    /// Whether `text` denotes a value of this type.
    spec fn accepts(text: Seq<char>) -> bool;

    /// Whether `value` is what `text` denotes.
    spec fn denotes(text: Seq<char>, value: Self) -> bool;

    /// The native type that `Self` is.
    fn native() -> (r: NativeType)
        ensures
            r == Self::native_type(),
    ;

    /// Reads `text` as a value of this type.
    fn from_text(text: &str) -> (r: Option<Self>)
        ensures
            r is Some <==> Self::accepts(text@),
            r matches Some(value) ==> Self::denotes(text@, value),
    ;
}

impl OptionValue for bool {
    open spec fn native_type() -> NativeType {
        NativeType::Bool
    }

    open spec fn accepts(text: Seq<char>) -> bool {
        is_boolean_text(text)
    }

    open spec fn denotes(text: Seq<char>, value: bool) -> bool {
        value == (text == "true"@)
    }

    fn native() -> (r: NativeType) {
        NativeType::Bool
    }

    fn from_text(text: &str) -> (r: Option<bool>) {
        let cs = to_chars(text);
        if is_boolean_literal(&cs) {
            proof {
                reveal_strlit("true");
                reveal_strlit("false");
            }
            Some(cs.len() == 4)
        } else {
            None
        }
    }
}

impl OptionValue for String {
    open spec fn native_type() -> NativeType {
        NativeType::OwnedString
    }

    open spec fn accepts(text: Seq<char>) -> bool {
        true
    }

    open spec fn denotes(text: Seq<char>, value: String) -> bool {
        value@ == text
    }

    fn native() -> (r: NativeType) {
        NativeType::OwnedString
    }

    fn from_text(text: &str) -> (r: Option<String>) {
        Some(text.to_owned())
    }
}

/// A floating-point value, held as the text that denotes it.
///
/// The text is floating-point text, so the floating-point type of the
/// caller's choice parses it without error.
#[derive(Debug, PartialEq, Eq)]
pub struct FPointValue {
    text: String,
}

impl View for FPointValue {
    type V = Seq<char>;

    closed spec fn view(&self) -> Seq<char> {
        self.text@
    }
}

impl FPointValue {
    /// The text that denotes the value.
    pub fn as_str(&self) -> (r: &str)
        ensures
            r@ == self@,
    {
        self.text.as_str()
    }
}

impl OptionValue for FPointValue {
    open spec fn native_type() -> NativeType {
        NativeType::F64
    }

    open spec fn accepts(text: Seq<char>) -> bool {
        is_floating_point_text(text)
    }

    open spec fn denotes(text: Seq<char>, value: FPointValue) -> bool {
        value@ == text
    }

    fn native() -> (r: NativeType) {
        NativeType::F64
    }

    fn from_text(text: &str) -> (r: Option<FPointValue>) {
        let cs = to_chars(text);
        if is_floating_point_literal(&cs) {
            Some(FPointValue { text: text.to_owned() })
        } else {
            None
        }
    }
}

impl OptionValue for i8 {
    open spec fn native_type() -> NativeType {
        NativeType::I8
    }

    open spec fn accepts(text: Seq<char>) -> bool {
        is_signed_text(text, i8::MIN as int, i8::MAX as int)
    }

    open spec fn denotes(text: Seq<char>, value: i8) -> bool {
        value == literal_value(text)
    }

    fn native() -> (r: NativeType) {
        NativeType::I8
    }

    fn from_text(text: &str) -> (r: Option<i8>) {
        let cs = to_chars(text);
        match parse_signed(&cs, i8::MIN as i128, i8::MAX as i128) {
            Some(v) => Some(v as i8),
            None => None,
        }
    }
}

impl OptionValue for i16 {
    open spec fn native_type() -> NativeType {
        NativeType::I16
    }

    open spec fn accepts(text: Seq<char>) -> bool {
        is_signed_text(text, i16::MIN as int, i16::MAX as int)
    }

    open spec fn denotes(text: Seq<char>, value: i16) -> bool {
        value == literal_value(text)
    }

    fn native() -> (r: NativeType) {
        NativeType::I16
    }

    fn from_text(text: &str) -> (r: Option<i16>) {
        let cs = to_chars(text);
        match parse_signed(&cs, i16::MIN as i128, i16::MAX as i128) {
            Some(v) => Some(v as i16),
            None => None,
        }
    }
}

impl OptionValue for i32 {
    open spec fn native_type() -> NativeType {
        NativeType::I32
    }

    open spec fn accepts(text: Seq<char>) -> bool {
        is_signed_text(text, i32::MIN as int, i32::MAX as int)
    }

    open spec fn denotes(text: Seq<char>, value: i32) -> bool {
        value == literal_value(text)
    }

    fn native() -> (r: NativeType) {
        NativeType::I32
    }

    fn from_text(text: &str) -> (r: Option<i32>) {
        let cs = to_chars(text);
        match parse_signed(&cs, i32::MIN as i128, i32::MAX as i128) {
            Some(v) => Some(v as i32),
            None => None,
        }
    }
}

impl OptionValue for i64 {
    open spec fn native_type() -> NativeType {
        NativeType::I64
    }

    open spec fn accepts(text: Seq<char>) -> bool {
        is_signed_text(text, i64::MIN as int, i64::MAX as int)
    }

    open spec fn denotes(text: Seq<char>, value: i64) -> bool {
        value == literal_value(text)
    }

    fn native() -> (r: NativeType) {
        NativeType::I64
    }

    fn from_text(text: &str) -> (r: Option<i64>) {
        let cs = to_chars(text);
        match parse_signed(&cs, i64::MIN as i128, i64::MAX as i128) {
            Some(v) => Some(v as i64),
            None => None,
        }
    }
}

impl OptionValue for i128 {
    open spec fn native_type() -> NativeType {
        NativeType::I128
    }

    open spec fn accepts(text: Seq<char>) -> bool {
        is_signed_text(text, i128::MIN as int, i128::MAX as int)
    }

    open spec fn denotes(text: Seq<char>, value: i128) -> bool {
        value == literal_value(text)
    }

    fn native() -> (r: NativeType) {
        NativeType::I128
    }

    fn from_text(text: &str) -> (r: Option<i128>) {
        let cs = to_chars(text);
        match parse_signed(&cs, i128::MIN as i128, i128::MAX as i128) {
            Some(v) => Some(v as i128),
            None => None,
        }
    }
}

impl OptionValue for u8 {
    open spec fn native_type() -> NativeType {
        NativeType::U8
    }

    open spec fn accepts(text: Seq<char>) -> bool {
        is_unsigned_text(text, u8::MAX as int)
    }

    open spec fn denotes(text: Seq<char>, value: u8) -> bool {
        value == magnitude(text)
    }

    fn native() -> (r: NativeType) {
        NativeType::U8
    }

    fn from_text(text: &str) -> (r: Option<u8>) {
        let cs = to_chars(text);
        match parse_unsigned(&cs, u8::MAX as u128) {
            Some(v) => Some(v as u8),
            None => None,
        }
    }
}

impl OptionValue for u16 {
    open spec fn native_type() -> NativeType {
        NativeType::U16
    }

    open spec fn accepts(text: Seq<char>) -> bool {
        is_unsigned_text(text, u16::MAX as int)
    }

    open spec fn denotes(text: Seq<char>, value: u16) -> bool {
        value == magnitude(text)
    }

    fn native() -> (r: NativeType) {
        NativeType::U16
    }

    fn from_text(text: &str) -> (r: Option<u16>) {
        let cs = to_chars(text);
        match parse_unsigned(&cs, u16::MAX as u128) {
            Some(v) => Some(v as u16),
            None => None,
        }
    }
}

impl OptionValue for u32 {
    open spec fn native_type() -> NativeType {
        NativeType::U32
    }

    open spec fn accepts(text: Seq<char>) -> bool {
        is_unsigned_text(text, u32::MAX as int)
    }

    open spec fn denotes(text: Seq<char>, value: u32) -> bool {
        value == magnitude(text)
    }

    fn native() -> (r: NativeType) {
        NativeType::U32
    }

    fn from_text(text: &str) -> (r: Option<u32>) {
        let cs = to_chars(text);
        match parse_unsigned(&cs, u32::MAX as u128) {
            Some(v) => Some(v as u32),
            None => None,
        }
    }
}

impl OptionValue for u64 {
    open spec fn native_type() -> NativeType {
        NativeType::U64
    }

    open spec fn accepts(text: Seq<char>) -> bool {
        is_unsigned_text(text, u64::MAX as int)
    }

    open spec fn denotes(text: Seq<char>, value: u64) -> bool {
        value == magnitude(text)
    }

    fn native() -> (r: NativeType) {
        NativeType::U64
    }

    fn from_text(text: &str) -> (r: Option<u64>) {
        let cs = to_chars(text);
        match parse_unsigned(&cs, u64::MAX as u128) {
            Some(v) => Some(v as u64),
            None => None,
        }
    }
}

impl OptionValue for u128 {
    open spec fn native_type() -> NativeType {
        NativeType::U128
    }

    open spec fn accepts(text: Seq<char>) -> bool {
        is_unsigned_text(text, u128::MAX as int)
    }

    open spec fn denotes(text: Seq<char>, value: u128) -> bool {
        value == magnitude(text)
    }

    fn native() -> (r: NativeType) {
        NativeType::U128
    }

    fn from_text(text: &str) -> (r: Option<u128>) {
        let cs = to_chars(text);
        match parse_unsigned(&cs, u128::MAX as u128) {
            Some(v) => Some(v as u128),
            None => None,
        }
    }
}

} // verus!
