//! One declared option: its identity, its kind, its help metadata and the raw
//! values bound to it so far.

use crate::error::{
    BOOLEAN_OPTION_MISMATCH_VALUE_SET_ERROR_IDX, FPOINT_OPTION_MISMATCH_VALUE_SET_ERROR_IDX,
    INTEGER_OPTION_MISMATCH_VALUE_SET_ERROR_IDX, OPTION_TYPE_UNDEFINED_ERROR_IDX,
};
use crate::literal::{
    is_boolean_literal, is_boolean_text, is_floating_point_literal, is_floating_point_text,
    is_integer_literal, is_integer_text,
};
use crate::option_type::{kind_name, CommandLineOptionType};
use crate::text::{push_spaces, spaces, texts, to_chars};
use std::collections::hash_map::DefaultHasher;
use std::hash::Hasher;
use vstd::prelude::*;
use vstd::std_specs::hash::DefaultHasherAdditionalSpecFns;

verus! {

/// The short flag of a record that has none.
pub const EMPTY_SHORT_FORM: char = ' ';

/// What a record holds, as plain values.
pub struct OptionModel {
    /// The short flag; a blank when the option has none.
    pub short: char,
    /// The long flag, without its dashes; empty when the option has none.
    pub long: Seq<char>,
    pub mandatory: bool,
    pub arg_text: Seq<char>,
    pub help_text: Seq<char>,
    /// The raw values bound so far, oldest first.
    pub values: Seq<Seq<char>>,
    pub typ: CommandLineOptionType,
}

/// The number of bytes that `s` takes in UTF-8.
pub open spec fn byte_len(s: Seq<char>) -> nat {
    vstd::utf8::encode_utf8(s).len()
}

/// `s` after as many blanks as bring it to `width` characters.
pub open spec fn pad_left(s: Seq<char>, width: nat) -> Seq<char> {
    if s.len() < width {
        spaces((width - s.len()) as nat) + s
    } else {
        s
    }
}

/// `s` before as many blanks as bring it to `width` characters.
pub open spec fn pad_right(s: Seq<char>, width: nat) -> Seq<char> {
    if s.len() < width {
        s + spaces((width - s.len()) as nat)
    } else {
        s
    }
}

/// What is fed to the hasher for an identity: the four bytes of the short flag
/// if there is one, then the bytes of the long flag and one closing byte if
/// there is one.
pub open spec fn hash_input(short: char, long: Seq<char>) -> Seq<Seq<u8>> {
    let head = if short != EMPTY_SHORT_FORM {
        seq![vstd::bytes::spec_u32_to_le_bytes(short as u32)]
    } else {
        Seq::<Seq<u8>>::empty()
    };
    if long.len() > 0 {
        head.push(vstd::utf8::encode_utf8(long)).push(seq![0xffu8])
    } else {
        head
    }
}

/// The kind that a raw value looks like: the first of boolean, integer and
/// floating point whose grammar it meets, and `Undefined` when it meets none.
pub open spec fn looks_like(text: Seq<char>) -> CommandLineOptionType {
    if is_boolean_text(text) {
        CommandLineOptionType::Boolean
    } else if is_integer_text(text) {
        CommandLineOptionType::Integer
    } else if is_floating_point_text(text) {
        CommandLineOptionType::FPoint
    } else {
        CommandLineOptionType::Undefined
    }
}

/// Why an option of kind `typ` refuses `text`, as the index of the error
/// kind, or `None` when it takes it.
///
/// A record without a kind refuses everything. A text option takes
/// everything. Any other option refuses what looks like one of the other two
/// primitive kinds, and takes the rest.
pub open spec fn rejection(typ: CommandLineOptionType, text: Seq<char>) -> Option<usize> {
    match typ {
        CommandLineOptionType::Undefined => Some(OPTION_TYPE_UNDEFINED_ERROR_IDX),
        CommandLineOptionType::Text => None,
        _ => {
            let seen = looks_like(text);
            if seen == typ {
                None
            } else {
                match seen {
                    CommandLineOptionType::Boolean => Some(
                        BOOLEAN_OPTION_MISMATCH_VALUE_SET_ERROR_IDX,
                    ),
                    CommandLineOptionType::Integer => Some(
                        INTEGER_OPTION_MISMATCH_VALUE_SET_ERROR_IDX,
                    ),
                    CommandLineOptionType::FPoint => Some(
                        FPOINT_OPTION_MISMATCH_VALUE_SET_ERROR_IDX,
                    ),
                    _ => None,
                }
            }
        },
    }
}

impl OptionModel {
    pub open spec fn has_short(self) -> bool {
        self.short != EMPTY_SHORT_FORM
    }

    pub open spec fn has_long(self) -> bool {
        self.long.len() > 0
    }

    /// The flags as shown to the user: `-c`, `--config` or `-c/--config`.
    pub open spec fn flags(self) -> Seq<char> {
        let short = if self.has_short() {
            seq!['-', self.short]
        } else {
            Seq::<char>::empty()
        };
        let long = if self.has_long() {
            "--"@ + self.long
        } else {
            Seq::<char>::empty()
        };
        if self.has_short() && self.has_long() {
            short + "/"@ + long
        } else {
            short + long
        }
    }

    /// The handle of the option: a hash of its flags.
    pub open spec fn fingerprint(self) -> u64 {
        DefaultHasher::spec_finish(hash_input(self.short, self.long))
    }

    /// The two records have the same short flag: both have one, and it is
    /// the same character.
    pub open spec fn shares_short(self, other: OptionModel) -> bool {
        self.has_short() && self.short == other.short
    }

    /// The two records have the same long flag: both have one, and it is the
    /// same name.
    pub open spec fn shares_long(self, other: OptionModel) -> bool {
        self.has_long() && self.long == other.long
    }

    /// Two records are the same option when kind, short flag and long flag
    /// all agree.
    pub open spec fn same_identity(self, other: OptionModel) -> bool {
        self.typ == other.typ && self.short == other.short && self.long == other.long
    }

    pub open spec fn is_set(self) -> bool {
        self.values.len() > 0
    }

    /// The record after `text` has been bound to it.
    pub open spec fn with_value(self, text: Seq<char>) -> OptionModel {
        OptionModel { values: self.values.push(text), ..self }
    }

    /// The record with its kind set.
    pub open spec fn with_type(self, typ: CommandLineOptionType) -> OptionModel {
        OptionModel { typ, ..self }
    }

    /// The help line of the option, for columns of the given widths.
    pub open spec fn help_line(self, max_flags_len: nat, max_arg_text_len: nat) -> Seq<char> {
        let flags = pad_left(self.flags(), max_flags_len);
        let arg_len = byte_len(self.arg_text);
        if arg_len != 0 {
            flags + " <"@ + pad_right(self.arg_text, arg_len) + ">"@ + spaces(
                (max_arg_text_len - arg_len) as nat,
            ) + " "@ + self.help_text + ".\n"@
        } else {
            flags + " "@ + spaces(max_arg_text_len + 2) + " "@ + self.help_text + ".\n"@
        }
    }
}

/// A freshly declared record: no values, no kind.
pub open spec fn fresh_option(
    short: char,
    long: Seq<char>,
    mandatory: bool,
    arg_text: Seq<char>,
    help_text: Seq<char>,
) -> OptionModel {
    OptionModel {
        short,
        long,
        mandatory,
        arg_text,
        help_text,
        values: Seq::<Seq<char>>::empty(),
        typ: CommandLineOptionType::Undefined,
    }
}

/// One declared option.
pub struct CommandLineOption {
    short_form_option: char,
    long_form_option: String,
    mandatory: bool,
    arg_text: String,
    help_text: String,
    values: Vec<String>,
    typ: CommandLineOptionType,
}

impl View for CommandLineOption {
    type V = OptionModel;

    closed spec fn view(&self) -> OptionModel {
        OptionModel {
            short: self.short_form_option,
            long: self.long_form_option@,
            mandatory: self.mandatory,
            arg_text: self.arg_text@,
            help_text: self.help_text@,
            values: texts(self.values@),
            typ: self.typ,
        }
    }
}

impl CommandLineOption {
    /// A record that is known by a single character only, as in `-h`.
    pub fn new_short_only(
        short_form_option: char,
        mandatory: bool,
        arg_text: &str,
        help_text: &str,
    ) -> (r: Self)
        ensures
            r@ == fresh_option(
                short_form_option,
                Seq::<char>::empty(),
                mandatory,
                arg_text@,
                help_text@,
            ),
    {
        let r = Self {
            short_form_option,
            long_form_option: String::new(),
            mandatory,
            arg_text: arg_text.to_owned(),
            help_text: help_text.to_owned(),
            values: Vec::new(),
            typ: CommandLineOptionType::new(),
        };
        assert(texts(r.values@) =~= Seq::<Seq<char>>::empty());
        r
    }

    /// A record that is known by a name only, as in `--help`.
    pub fn new_long_only(long_form_option: &str, mandatory: bool, arg_text: &str, help_text: &str) -> (r:
        Self)
        ensures
            r@ == fresh_option(
                EMPTY_SHORT_FORM,
                long_form_option@,
                mandatory,
                arg_text@,
                help_text@,
            ),
    {
        let r = Self {
            short_form_option: EMPTY_SHORT_FORM,
            long_form_option: long_form_option.to_owned(),
            mandatory,
            arg_text: arg_text.to_owned(),
            help_text: help_text.to_owned(),
            values: Vec::new(),
            typ: CommandLineOptionType::new(),
        };
        assert(texts(r.values@) =~= Seq::<Seq<char>>::empty());
        r
    }

    /// A record that is known by a character and by a name, as in `-h/--help`.
    pub fn new(
        short_form_option: char,
        long_form_option: &str,
        mandatory: bool,
        arg_text: &str,
        help_text: &str,
    ) -> (r: Self)
        ensures
            r@ == fresh_option(
                short_form_option,
                long_form_option@,
                mandatory,
                arg_text@,
                help_text@,
            ),
    {
        let r = Self {
            short_form_option,
            long_form_option: long_form_option.to_owned(),
            mandatory,
            arg_text: arg_text.to_owned(),
            help_text: help_text.to_owned(),
            values: Vec::new(),
            typ: CommandLineOptionType::new(),
        };
        assert(texts(r.values@) =~= Seq::<Seq<char>>::empty());
        r
    }

    /// Sets the kind of the record.
    pub fn set_type(&mut self, typ: CommandLineOptionType)
        ensures
            final(self)@ == old(self)@.with_type(typ),
    {
        self.typ = typ;
    }

    /// The short flag; a blank when there is none.
    pub fn short_form(&self) -> (r: char)
        ensures
            r == self@.short,
    {
        self.short_form_option
    }

    /// The long flag; empty when there is none.
    pub fn long_form(&self) -> (r: &String)
        ensures
            r@ == self@.long,
    {
        &self.long_form_option
    }

    /// Whether the option must be bound by the end of a scan.
    pub fn is_mandatory(&self) -> (r: bool)
        ensures
            r == self@.mandatory,
    {
        self.mandatory
    }

    /// The text that names the option's argument in the help.
    pub fn arg_text(&self) -> (r: &String)
        ensures
            r@ == self@.arg_text,
    {
        &self.arg_text
    }

    /// The kind of the option.
    pub fn option_type(&self) -> (r: CommandLineOptionType)
        ensures
            r == self@.typ,
    {
        self.typ
    }

    /// The handle of the option: a hash of its short flag, if it has one, and
    /// of its long flag, if it has one. Records with the same flags have the
    /// same handle.
    pub fn calculate_hash(&self) -> (r: u64)
        ensures
            r == self@.fingerprint(),
    {
        let mut hasher = DefaultHasher::new();
        if EMPTY_SHORT_FORM != self.short_form_option {
            let code: u32 = self.short_form_option as u32;
            let bytes = vstd::bytes::u32_to_le_bytes(code);
            hasher.write(bytes.as_slice());
        }
        if !self.long_form_option.as_str().is_empty() {
            hasher.write(self.long_form_option.as_str().as_bytes());
            let mut closing: Vec<u8> = Vec::new();
            closing.push(0xffu8);
            assert(closing@ =~= seq![0xffu8]);
            hasher.write(closing.as_slice());
        }
        hasher.finish()
    }

    /// The flags as shown to the user: `-h/--help`, `--config` or `-v`.
    pub fn get_flags(&self) -> (r: String)
        ensures
            r@ == self@.flags(),
    {
        let mut flags_repr = String::new();
        if EMPTY_SHORT_FORM != self.short_form_option {
            flags_repr.push('-');
            flags_repr.push(self.short_form_option);
            assert(flags_repr@ =~= seq!['-', self.short_form_option]);
        }
        if !self.long_form_option.as_str().is_empty() {
            if EMPTY_SHORT_FORM != self.short_form_option {
                flags_repr.push('/');
            }
            flags_repr.append("--");
            flags_repr.append(self.long_form_option.as_str());
        }
        proof {
            reveal_strlit("/");
            assert(flags_repr@ =~= self@.flags());
        }
        flags_repr
    }

    /// The display name of the option's kind.
    pub fn get_type_name(&self) -> (r: String)
        ensures
            r@ == kind_name(self@.typ),
    {
        self.typ.unwrap().to_owned()
    }

    /// The help line of the option. The flags are right-aligned in a column
    /// of `max_flags_len` characters; the argument text, in angle brackets,
    /// is followed by blanks up to `max_arg_text_len`.
    pub fn help_text(&self, max_flags_len: usize, max_arg_text_len: usize) -> (r: String)
        requires
            byte_len(self@.arg_text) <= max_arg_text_len,
        ensures
            r@ == self@.help_line(max_flags_len as nat, max_arg_text_len as nat),
    {
        let flags = self.get_flags();
        let flags_len = to_chars(flags.as_str()).len();
        let mut out = String::new();
        if flags_len < max_flags_len {
            push_spaces(&mut out, max_flags_len - flags_len);
        }
        out.append(flags.as_str());
        assert(out@ =~= pad_left(self@.flags(), max_flags_len as nat));
        let arg_text_len = self.arg_text.as_str().as_bytes().len();
        if 0 != arg_text_len {
            let arg_chars = to_chars(self.arg_text.as_str()).len();
            out.append(" <");
            out.append(self.arg_text.as_str());
            if arg_chars < arg_text_len {
                push_spaces(&mut out, arg_text_len - arg_chars);
            }
            out.push('>');
            push_spaces(&mut out, max_arg_text_len - arg_text_len);
            out.push(' ');
            out.append(self.help_text.as_str());
            out.append(".\n");
            proof {
                reveal_strlit(">");
                reveal_strlit(" ");
                assert(out@ =~= self@.help_line(max_flags_len as nat, max_arg_text_len as nat));
            }
        } else {
            out.push(' ');
            push_spaces(&mut out, max_arg_text_len);
            out.push(' ');
            out.push(' ');
            out.push(' ');
            out.append(self.help_text.as_str());
            out.append(".\n");
            proof {
                reveal_strlit(" ");
                assert(spaces(max_arg_text_len as nat + 2) =~= spaces(max_arg_text_len as nat).push(
                    ' ',
                ).push(' '));
                assert(out@ =~= self@.help_line(max_flags_len as nat, max_arg_text_len as nat));
            }
        }
        out
    }

    /// Whether a value has been bound.
    pub fn is_set(&self) -> (r: bool)
        ensures
            r == self@.is_set(),
    {
        0 != self.values.len()
    }

    /// The first bound value, if any.
    pub fn get_value(&self) -> (r: Option<&String>)
        ensures
            match r {
                Some(v) => self@.is_set() && v@ == self@.values[0],
                None => !self@.is_set(),
            },
    {
        if self.values.len() > 0 {
            return Some(&self.values[0]);
        }
        None
    }

    /// Binds a raw value. The value is refused, and the record left as it
    /// was, exactly when `rejection` names an error kind for it; otherwise it
    /// becomes the last of the bound values.
    pub fn add_value(&mut self, value: &str) -> (r: Result<(), usize>)
        ensures
            match rejection(old(self)@.typ, value@) {
                Some(kind) => r == Err::<(), usize>(kind) && final(self)@ == old(self)@,
                None => r is Ok && final(self)@ == old(self)@.with_value(value@),
            },
    {
        match self.typ {
            CommandLineOptionType::Undefined => {
                return Err(OPTION_TYPE_UNDEFINED_ERROR_IDX);
            },
            CommandLineOptionType::Text => {},
            _ => {
                let cs = to_chars(value);
                if is_boolean_literal(&cs) {
                    if self.typ != CommandLineOptionType::Boolean {
                        return Err(BOOLEAN_OPTION_MISMATCH_VALUE_SET_ERROR_IDX);
                    }
                } else if is_integer_literal(&cs) {
                    if self.typ != CommandLineOptionType::Integer {
                        return Err(INTEGER_OPTION_MISMATCH_VALUE_SET_ERROR_IDX);
                    }
                } else if is_floating_point_literal(&cs) {
                    if self.typ != CommandLineOptionType::FPoint {
                        return Err(FPOINT_OPTION_MISMATCH_VALUE_SET_ERROR_IDX);
                    }
                }
            },
        }
        self.values.push(value.to_owned());
        assert(texts(self.values@) =~= texts(old(self).values@).push(value@));
        Ok(())
    }

    /// All bound values, oldest first.
    pub fn get_values(&self) -> (r: &Vec<String>)
        ensures
            texts(r@) == self@.values,
    {
        &self.values
    }
}

impl PartialEq for CommandLineOption {
    /// Two records are equal when kind, short flag and long flag all agree.
    fn eq(&self, other: &Self) -> (r: bool) {
        (self.typ == other.typ) && (self.short_form_option == other.short_form_option) && (
        self.long_form_option == other.long_form_option)
    }
}

impl vstd::std_specs::cmp::PartialEqSpecImpl for CommandLineOption {
    open spec fn obeys_eq_spec() -> bool {
        true
    }

    open spec fn eq_spec(&self, other: &CommandLineOption) -> bool {
        self@.same_identity(other@)
    }
}

} // verus!
