//! The kind of value an option takes, and the classification of native types.

use vstd::prelude::*;

verus! {

/// The kind of value an option takes.
///
/// Every registered option has one of the four concrete kinds; `Undefined`
/// is what a freshly constructed record carries and what an unknown handle
/// reports.
#[derive(Clone, Copy, Debug, PartialEq, Eq, Structural)]
pub enum CommandLineOptionType {
    Undefined,
    Boolean,
    Integer,
    FPoint,
    Text,
}

/// The native types a bound value can be asked for.
///
/// `Other` stands for every type that the classification does not know.
#[derive(Clone, Copy, Debug, PartialEq, Eq, Structural)]
pub enum NativeType {
    Bool,
    I8,
    U8,
    I16,
    U16,
    I32,
    U32,
    I64,
    U64,
    I128,
    U128,
    F32,
    F64,
    Str,
    OwnedString,
    Other,
}

/// The display name of an option kind.
pub open spec fn kind_name(typ: CommandLineOptionType) -> Seq<char> {
    match typ {
        CommandLineOptionType::Undefined => "UndefinedCommandLineOptionType"@,
        CommandLineOptionType::Boolean => "BooleanCommandLineOptionType"@,
        CommandLineOptionType::Integer => "IntegerCommandLineOptionType"@,
        CommandLineOptionType::FPoint => "FPointCommandLineOptionType"@,
        CommandLineOptionType::Text => "StringCommandLineOptionType"@,
    }
}

/// The option kind that values of a native type belong to.
pub open spec fn kind_of(native: NativeType) -> CommandLineOptionType {
    match native {
        NativeType::Bool => CommandLineOptionType::Boolean,
        NativeType::I8
        | NativeType::U8
        | NativeType::I16
        | NativeType::U16
        | NativeType::I32
        | NativeType::U32
        | NativeType::I64
        | NativeType::U64
        | NativeType::I128
        | NativeType::U128 => CommandLineOptionType::Integer,
        NativeType::F32 | NativeType::F64 => CommandLineOptionType::FPoint,
        NativeType::Str | NativeType::OwnedString => CommandLineOptionType::Text,
        NativeType::Other => CommandLineOptionType::Undefined,
    }
}

impl CommandLineOptionType {
    /// The kind of a record whose type has not been set.
    pub fn new() -> (r: Self)
        ensures
            r == CommandLineOptionType::Undefined,
    {
        CommandLineOptionType::Undefined
    }

    /// The display name of this kind.
    pub fn unwrap(&self) -> (r: &'static str)
        ensures
            r@ == kind_name(*self),
    {
        match self {
            CommandLineOptionType::Undefined => "UndefinedCommandLineOptionType",
            CommandLineOptionType::Boolean => "BooleanCommandLineOptionType",
            CommandLineOptionType::Integer => "IntegerCommandLineOptionType",
            CommandLineOptionType::FPoint => "FPointCommandLineOptionType",
            CommandLineOptionType::Text => "StringCommandLineOptionType",
        }
    }
}

impl From<NativeType> for CommandLineOptionType {
    /// Classifies a native type: the boolean type is `Boolean`, the ten
    /// fixed-width integer types are `Integer`, the two floating-point types
    /// are `FPoint`, the two string types are `Text`, and anything else is
    /// `Undefined`.
    fn from(native: NativeType) -> (r: Self) {
        match native {
            NativeType::Bool => CommandLineOptionType::Boolean,
            NativeType::I8 => CommandLineOptionType::Integer,
            NativeType::U8 => CommandLineOptionType::Integer,
            NativeType::I16 => CommandLineOptionType::Integer,
            NativeType::U16 => CommandLineOptionType::Integer,
            NativeType::I32 => CommandLineOptionType::Integer,
            NativeType::U32 => CommandLineOptionType::Integer,
            NativeType::I64 => CommandLineOptionType::Integer,
            NativeType::U64 => CommandLineOptionType::Integer,
            NativeType::I128 => CommandLineOptionType::Integer,
            NativeType::U128 => CommandLineOptionType::Integer,
            NativeType::F32 => CommandLineOptionType::FPoint,
            NativeType::F64 => CommandLineOptionType::FPoint,
            NativeType::Str => CommandLineOptionType::Text,
            NativeType::OwnedString => CommandLineOptionType::Text,
            NativeType::Other => CommandLineOptionType::Undefined,
        }
    }
}

impl vstd::std_specs::convert::FromSpecImpl<NativeType> for CommandLineOptionType {
    open spec fn obeys_from_spec() -> bool {
        true
    }

    open spec fn from_spec(native: NativeType) -> Self {
        kind_of(native)
    }
}

} // verus!
