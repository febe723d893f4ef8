//! The parser: the registry of declared options, the scan of an argument
//! vector, and the retrieval of what the scan bound.

use crate::error::{
    default_error_list, default_messages, error_list_of, CMD_LINE_OPTION_ERROR_NUM,
    LONG_OPTION_ALREADY_EXISTS_ERROR_IDX, MANDATORY_OPTION_HAS_NOT_SET_ERROR_IDX,
    MISSING_OPTION_ARGUMENT_ERROR_IDX, OPTION_ALREADY_EXISTS_ERROR_IDX,
    OPTION_ARGUMENT_ALREADY_ASSIGNED_ERROR_IDX, OPTION_IDENTIFIER_NOT_FOUND_ERROR_IDX,
    OPTION_IS_NOT_OF_REQUIRED_TYPE_ERROR_IDX, OPTION_IS_NOT_SET_ERROR_IDX,
    OPTION_NOT_FOUND_ERROR_IDX, SHORT_OPTION_ALREADY_EXISTS_ERROR_IDX, CommandLineParserError,
    ErrorModel,
};
use crate::help::{
    help_lines, help_text_of, lemma_max_arg_text_len_bounds, max_arg_text_len, max_flags_len,
};
use crate::laws::law_parse_only_adds;
use crate::model::{ParserModel, ParsingMode};
use crate::option::{fresh_option, CommandLineOption, OptionModel, EMPTY_SHORT_FORM};
use crate::option_type::{CommandLineOptionType, NativeType};
use crate::query::{
    all_accepted, all_denoted, all_values_of, holds_unreadable, lemma_values_of_holds,
    value_error, values_error, values_of,
};
use crate::registry::{
    conflict, conflicts_with, error_for, error_without_option, find_flag, find_handle,
    has_handle, has_long_flag, has_short_flag, is_long_token, is_missing,
    lemma_find_flag_in_range, lemma_first_match_is,
    lemma_first_match_none, lemma_registration_keeps_flags_distinct, mandatory_error,
    registration_error, short_of_token,
};
use crate::scan::{
    cluster_from, key_end, long_step, parse_outcome, scan_from, short_step, token_kind,
};
use crate::text::{find_char, from_chars, lemma_first_position, lemma_texts_push, texts, to_chars};
use crate::value::OptionValue;
use vstd::prelude::*;

verus! {

/// The models of the records of `v`, in order.
pub open spec fn models(v: Seq<CommandLineOption>) -> Seq<OptionModel> {
    v.map_values(|o: CommandLineOption| o@)
}

/// What registering `candidate` does: if a record conflicts with it, the
/// parser stays as it was and the result is the error of the first such
/// record; otherwise the candidate becomes the last record and the result is
/// its handle.
pub open spec fn registers(
    before: ParserModel,
    candidate: OptionModel,
    after: ParserModel,
    r: Result<u64, CommandLineParserError>,
) -> bool {
    match registration_error(before.options, candidate, before.messages) {
        Some(e) => after == before && (r matches Err(err) && err@ == e),
        None => after == before.with_options(before.options.push(candidate)) && (r matches Ok(
            handle,
        ) && handle == candidate.fingerprint()),
    }
}

/// A parser of command-line arguments.
///
/// An option is known by a single character (`-c`), by a name (`--config`),
/// or by both. A boolean option takes no argument; an integer, floating
/// point or text option takes one, attached with `=` or given as the next
/// argument. Short options can be grouped (`-xvz`); at most one option of a
/// group can use the group's argument.
pub struct CommandLineParser {
    program_name: String,
    options: Vec<CommandLineOption>,
    errors_list: [String; CMD_LINE_OPTION_ERROR_NUM],
    remaining_args: Vec<String>,
    positional_args: Vec<String>,
    parsing_mode: ParsingMode,
}

impl View for CommandLineParser {
    type V = ParserModel;

    closed spec fn view(&self) -> ParserModel {
        ParserModel {
            program_name: self.program_name@,
            options: models(self.options@),
            messages: texts(self.errors_list@),
            remaining_args: texts(self.remaining_args@),
            positional_args: texts(self.positional_args@),
            parsing_mode: self.parsing_mode,
        }
    }
}

impl CommandLineParser {
    /// A parser without options. `errors_list` is the message of each error
    /// kind, in the order of the `*_ERROR_IDX` constants; `None` stands for
    /// the English messages.
    pub fn new(errors_list: Option<[&str; CMD_LINE_OPTION_ERROR_NUM]>) -> (r: Self)
        ensures
            r@ == (ParserModel {
                program_name: Seq::<char>::empty(),
                options: Seq::<OptionModel>::empty(),
                messages: match errors_list {
                    Some(list) => list@.map_values(|s: &str| s@),
                    None => default_messages(),
                },
                remaining_args: Seq::<Seq<char>>::empty(),
                positional_args: Seq::<Seq<char>>::empty(),
                parsing_mode: ParsingMode::DefaultParsingMode,
            }),
            r@.wf(),
    {
        let messages = match errors_list {
            Some(list) => error_list_of(list),
            None => default_error_list(),
        };
        let r = Self {
            program_name: String::new(),
            options: Vec::new(),
            errors_list: messages,
            remaining_args: Vec::new(),
            positional_args: Vec::new(),
            parsing_mode: ParsingMode::DefaultParsingMode,
        };
        assert(models(r.options@) =~= Seq::<OptionModel>::empty());
        assert(texts(r.remaining_args@) =~= Seq::<Seq<char>>::empty());
        assert(texts(r.positional_args@) =~= Seq::<Seq<char>>::empty());
        r
    }

    /// A parser has a message for every error kind.
    pub proof fn lemma_messages(&self)
        ensures
            self@.messages.len() == CMD_LINE_OPTION_ERROR_NUM,
    {
    }

    /// The error of kind `kind` about the record at `i`.
    fn error_about(&self, i: usize, kind: usize) -> (r: CommandLineParserError)
        requires
            i < self@.options.len(),
            kind < CMD_LINE_OPTION_ERROR_NUM,
        ensures
            r@ == error_for(self@.options[i as int], self@.messages, kind as int),
    {
        CommandLineParserError::new(
            self.options[i].get_flags(),
            self.options[i].get_type_name(),
            self.errors_list[kind].clone(),
        )
    }

    /// The error of kind `kind` that names no record, only the text `flags`.
    fn error_without(&self, flags: String, kind: usize) -> (r: CommandLineParserError)
        requires
            kind < CMD_LINE_OPTION_ERROR_NUM,
        ensures
            r@ == error_without_option(flags@, self@.messages, kind as int),
    {
        CommandLineParserError::new(
            flags,
            CommandLineOptionType::Undefined.unwrap().to_owned(),
            self.errors_list[kind].clone(),
        )
    }

    /// Looks for a record that stands in the way of `candidate`: the same
    /// option, a record with the same short flag, or one with the same long
    /// flag. A flag that `candidate` lacks clashes with nothing. The error
    /// is that of the first such record.
    pub fn check_option_already_exists(&self, candidate: &CommandLineOption) -> (r: Result<
        (),
        CommandLineParserError,
    >)
        ensures
            match registration_error(self@.options, candidate@, self@.messages) {
                Some(e) => r matches Err(err) && err@ == e,
                None => r is Ok,
            },
    {
        let ghost wanted = conflicts_with(candidate@);
        let mut i: usize = 0;
        while i < self.options.len()
            invariant
                i <= self.options@.len(),
                wanted == conflicts_with(candidate@),
                forall|j: int| 0 <= j < i ==> !wanted(#[trigger] self@.options[j]),
            decreases self.options@.len() - i,
        {
            let option = &self.options[i];
            let kind = if candidate.eq(option) {
                Some(OPTION_ALREADY_EXISTS_ERROR_IDX)
            } else if EMPTY_SHORT_FORM != candidate.short_form() && candidate.short_form()
                == option.short_form() {
                Some(SHORT_OPTION_ALREADY_EXISTS_ERROR_IDX)
            } else if !candidate.long_form().as_str().is_empty() && *candidate.long_form()
                == *option.long_form() {
                Some(LONG_OPTION_ALREADY_EXISTS_ERROR_IDX)
            } else {
                None
            };
            assert(kind == conflict(self@.options[i as int], candidate@));
            if let Some(kind) = kind {
                proof {
                    lemma_first_match_is(self@.options, wanted, i as int);
                }
                return Err(self.error_about(i, kind));
            }
            i += 1;
        }
        proof {
            lemma_first_match_none(self@.options, wanted);
        }
        Ok(())
    }

    /// Registers `option` unless a record stands in its way.
    fn register(&mut self, option: CommandLineOption) -> (r: Result<u64, CommandLineParserError>)
        ensures
            registers(old(self)@, option@, final(self)@, r),
            old(self)@.wf() ==> final(self)@.wf(),
    {
        if let Err(error) = self.check_option_already_exists(&option) {
            return Err(error);
        }
        let option_hash: u64 = option.calculate_hash();
        proof {
            if self@.wf() {
                lemma_registration_keeps_flags_distinct(self@.options, option@);
            }
        }
        self.options.push(option);
        assert(models(self.options@) =~= models(old(self).options@).push(option@));
        Ok(option_hash)
    }

    /// Declares a boolean option known by a single character.
    pub fn add_short_boolean_option(
        &mut self,
        short_form_option: char,
        mandatory: bool,
        help_text: &str,
    ) -> (r: Result<u64, CommandLineParserError>)
        ensures
            registers(
                old(self)@,
                fresh_option(short_form_option, Seq::<char>::empty(), mandatory, Seq::<char>::empty(), help_text@).with_type(
                    CommandLineOptionType::Boolean,
                ),
                final(self)@,
                r,
            ),
            old(self)@.wf() ==> final(self)@.wf(),
    {
        let mut option = CommandLineOption::new_short_only(short_form_option, mandatory, "", help_text);
        option.set_type(CommandLineOptionType::from(NativeType::Bool));
        proof {
            reveal_strlit("");
            assert(""@ =~= Seq::<char>::empty());
        }
        self.register(option)
    }

    /// Declares a boolean option known by a name.
    pub fn add_long_boolean_option(
        &mut self,
        long_form_option: &str,
        mandatory: bool,
        help_text: &str,
    ) -> (r: Result<u64, CommandLineParserError>)
        ensures
            registers(
                old(self)@,
                fresh_option(EMPTY_SHORT_FORM, long_form_option@, mandatory, Seq::<char>::empty(), help_text@).with_type(
                    CommandLineOptionType::Boolean,
                ),
                final(self)@,
                r,
            ),
            old(self)@.wf() ==> final(self)@.wf(),
    {
        let mut option = CommandLineOption::new_long_only(long_form_option, mandatory, "", help_text);
        option.set_type(CommandLineOptionType::from(NativeType::Bool));
        proof {
            reveal_strlit("");
            assert(""@ =~= Seq::<char>::empty());
        }
        self.register(option)
    }

    /// Declares a boolean option known by a single character and by a name.
    pub fn add_boolean_option(
        &mut self,
        short_form_option: char,
        long_form_option: &str,
        mandatory: bool,
        help_text: &str,
    ) -> (r: Result<u64, CommandLineParserError>)
        ensures
            registers(
                old(self)@,
                fresh_option(short_form_option, long_form_option@, mandatory, Seq::<char>::empty(), help_text@).with_type(
                    CommandLineOptionType::Boolean,
                ),
                final(self)@,
                r,
            ),
            old(self)@.wf() ==> final(self)@.wf(),
    {
        let mut option = CommandLineOption::new(
            short_form_option,
            long_form_option,
            mandatory,
            "",
            help_text,
        );
        option.set_type(CommandLineOptionType::from(NativeType::Bool));
        proof {
            reveal_strlit("");
            assert(""@ =~= Seq::<char>::empty());
        }
        self.register(option)
    }

    /// Declares an integer option known by a single character. `arg_text` names
    /// its argument in the help.
    pub fn add_short_integer_option(
        &mut self,
        short_form_option: char,
        mandatory: bool,
        arg_text: &str,
        help_text: &str,
    ) -> (r: Result<u64, CommandLineParserError>)
        ensures
            registers(
                old(self)@,
                fresh_option(short_form_option, Seq::<char>::empty(), mandatory, arg_text@, help_text@).with_type(
                    CommandLineOptionType::Integer,
                ),
                final(self)@,
                r,
            ),
            old(self)@.wf() ==> final(self)@.wf(),
    {
        let mut option = CommandLineOption::new_short_only(short_form_option, mandatory, arg_text, help_text);
        option.set_type(CommandLineOptionType::from(NativeType::I128));
        self.register(option)
    }

    /// Declares an integer option known by a name. `arg_text` names
    /// its argument in the help.
    pub fn add_long_integer_option(
        &mut self,
        long_form_option: &str,
        mandatory: bool,
        arg_text: &str,
        help_text: &str,
    ) -> (r: Result<u64, CommandLineParserError>)
        ensures
            registers(
                old(self)@,
                fresh_option(EMPTY_SHORT_FORM, long_form_option@, mandatory, arg_text@, help_text@).with_type(
                    CommandLineOptionType::Integer,
                ),
                final(self)@,
                r,
            ),
            old(self)@.wf() ==> final(self)@.wf(),
    {
        let mut option = CommandLineOption::new_long_only(long_form_option, mandatory, arg_text, help_text);
        option.set_type(CommandLineOptionType::from(NativeType::I128));
        self.register(option)
    }

    /// Declares an integer option known by a single character and by a name. `arg_text` names
    /// its argument in the help.
    pub fn add_integer_option(
        &mut self,
        short_form_option: char,
        long_form_option: &str,
        mandatory: bool,
        arg_text: &str,
        help_text: &str,
    ) -> (r: Result<u64, CommandLineParserError>)
        ensures
            registers(
                old(self)@,
                fresh_option(short_form_option, long_form_option@, mandatory, arg_text@, help_text@).with_type(
                    CommandLineOptionType::Integer,
                ),
                final(self)@,
                r,
            ),
            old(self)@.wf() ==> final(self)@.wf(),
    {
        let mut option = CommandLineOption::new(
            short_form_option,
            long_form_option,
            mandatory,
            arg_text,
            help_text,
        );
        option.set_type(CommandLineOptionType::from(NativeType::I128));
        self.register(option)
    }

    /// Declares a floating point option known by a single character. `arg_text` names
    /// its argument in the help.
    pub fn add_short_fpoint_option(
        &mut self,
        short_form_option: char,
        mandatory: bool,
        arg_text: &str,
        help_text: &str,
    ) -> (r: Result<u64, CommandLineParserError>)
        ensures
            registers(
                old(self)@,
                fresh_option(short_form_option, Seq::<char>::empty(), mandatory, arg_text@, help_text@).with_type(
                    CommandLineOptionType::FPoint,
                ),
                final(self)@,
                r,
            ),
            old(self)@.wf() ==> final(self)@.wf(),
    {
        let mut option = CommandLineOption::new_short_only(short_form_option, mandatory, arg_text, help_text);
        option.set_type(CommandLineOptionType::from(NativeType::F64));
        self.register(option)
    }

    /// Declares a floating point option known by a name. `arg_text` names
    /// its argument in the help.
    pub fn add_long_fpoint_option(
        &mut self,
        long_form_option: &str,
        mandatory: bool,
        arg_text: &str,
        help_text: &str,
    ) -> (r: Result<u64, CommandLineParserError>)
        ensures
            registers(
                old(self)@,
                fresh_option(EMPTY_SHORT_FORM, long_form_option@, mandatory, arg_text@, help_text@).with_type(
                    CommandLineOptionType::FPoint,
                ),
                final(self)@,
                r,
            ),
            old(self)@.wf() ==> final(self)@.wf(),
    {
        let mut option = CommandLineOption::new_long_only(long_form_option, mandatory, arg_text, help_text);
        option.set_type(CommandLineOptionType::from(NativeType::F64));
        self.register(option)
    }

    /// Declares a floating point option known by a single character and by a name. `arg_text` names
    /// its argument in the help.
    pub fn add_fpoint_option(
        &mut self,
        short_form_option: char,
        long_form_option: &str,
        mandatory: bool,
        arg_text: &str,
        help_text: &str,
    ) -> (r: Result<u64, CommandLineParserError>)
        ensures
            registers(
                old(self)@,
                fresh_option(short_form_option, long_form_option@, mandatory, arg_text@, help_text@).with_type(
                    CommandLineOptionType::FPoint,
                ),
                final(self)@,
                r,
            ),
            old(self)@.wf() ==> final(self)@.wf(),
    {
        let mut option = CommandLineOption::new(
            short_form_option,
            long_form_option,
            mandatory,
            arg_text,
            help_text,
        );
        option.set_type(CommandLineOptionType::from(NativeType::F64));
        self.register(option)
    }

    /// Declares a text option known by a single character. `arg_text` names
    /// its argument in the help.
    pub fn add_short_string_option(
        &mut self,
        short_form_option: char,
        mandatory: bool,
        arg_text: &str,
        help_text: &str,
    ) -> (r: Result<u64, CommandLineParserError>)
        ensures
            registers(
                old(self)@,
                fresh_option(short_form_option, Seq::<char>::empty(), mandatory, arg_text@, help_text@).with_type(
                    CommandLineOptionType::Text,
                ),
                final(self)@,
                r,
            ),
            old(self)@.wf() ==> final(self)@.wf(),
    {
        let mut option = CommandLineOption::new_short_only(short_form_option, mandatory, arg_text, help_text);
        option.set_type(CommandLineOptionType::from(NativeType::Str));
        self.register(option)
    }

    /// Declares a text option known by a name. `arg_text` names
    /// its argument in the help.
    pub fn add_long_string_option(
        &mut self,
        long_form_option: &str,
        mandatory: bool,
        arg_text: &str,
        help_text: &str,
    ) -> (r: Result<u64, CommandLineParserError>)
        ensures
            registers(
                old(self)@,
                fresh_option(EMPTY_SHORT_FORM, long_form_option@, mandatory, arg_text@, help_text@).with_type(
                    CommandLineOptionType::Text,
                ),
                final(self)@,
                r,
            ),
            old(self)@.wf() ==> final(self)@.wf(),
    {
        let mut option = CommandLineOption::new_long_only(long_form_option, mandatory, arg_text, help_text);
        option.set_type(CommandLineOptionType::from(NativeType::Str));
        self.register(option)
    }

    /// Declares a text option known by a single character and by a name. `arg_text` names
    /// its argument in the help.
    pub fn add_string_option(
        &mut self,
        short_form_option: char,
        long_form_option: &str,
        mandatory: bool,
        arg_text: &str,
        help_text: &str,
    ) -> (r: Result<u64, CommandLineParserError>)
        ensures
            registers(
                old(self)@,
                fresh_option(short_form_option, long_form_option@, mandatory, arg_text@, help_text@).with_type(
                    CommandLineOptionType::Text,
                ),
                final(self)@,
                r,
            ),
            old(self)@.wf() ==> final(self)@.wf(),
    {
        let mut option = CommandLineOption::new(
            short_form_option,
            long_form_option,
            mandatory,
            arg_text,
            help_text,
        );
        option.set_type(CommandLineOptionType::from(NativeType::Str));
        self.register(option)
    }

    /// Declares the customary help option, `-h/--help`: boolean, not
    /// mandatory.
    pub fn add_help_option(&mut self, help_text: &str) -> (r: Result<u64, CommandLineParserError>)
        ensures
            registers(
                old(self)@,
                fresh_option('h', "help"@, false, Seq::<char>::empty(), help_text@).with_type(
                    CommandLineOptionType::Boolean,
                ),
                final(self)@,
                r,
            ),
            old(self)@.wf() ==> final(self)@.wf(),
    {
        self.add_boolean_option('h', "help", false, help_text)
    }

    /// Declares the customary version option, `-v/--version`: boolean, not
    /// mandatory.
    pub fn add_version_option(&mut self, help_text: &str) -> (r: Result<
        u64,
        CommandLineParserError,
    >)
        ensures
            registers(
                old(self)@,
                fresh_option('v', "version"@, false, Seq::<char>::empty(), help_text@).with_type(
                    CommandLineOptionType::Boolean,
                ),
                final(self)@,
                r,
            ),
            old(self)@.wf() ==> final(self)@.wf(),
    {
        self.add_boolean_option('v', "version", false, help_text)
    }

    /// Whether a scan has bound a value to the option with the handle
    /// `option_hash`; `false` when no option has that handle.
    pub fn is_set(&self, option_hash: &u64) -> (r: bool)
        ensures
            r == match find_handle(self@.options, *option_hash) {
                Some(i) => self@.options[i].is_set(),
                None => false,
            },
    {
        match self.find_by_handle(*option_hash) {
            Some(i) => self.options[i].is_set(),
            None => false,
        }
    }

    /// The index of the first record with the handle `option_hash`.
    fn find_by_handle(&self, option_hash: u64) -> (r: Option<usize>)
        ensures
            match r {
                Some(i) => find_handle(self@.options, option_hash) == Some(i as int) && i
                    < self@.options.len(),
                None => find_handle(self@.options, option_hash) is None,
            },
    {
        let ghost wanted = has_handle(option_hash);
        let mut i: usize = 0;
        while i < self.options.len()
            invariant
                i <= self.options@.len(),
                wanted == has_handle(option_hash),
                forall|j: int| 0 <= j < i ==> !wanted(#[trigger] self@.options[j]),
            decreases self.options@.len() - i,
        {
            if option_hash == self.options[i].calculate_hash() {
                proof {
                    lemma_first_match_is(self@.options, wanted, i as int);
                }
                return Some(i);
            }
            i += 1;
        }
        proof {
            lemma_first_match_none(self@.options, wanted);
        }
        None
    }

    /// The error of kind `kind` with the given flags text and kind name.
    fn error_with(&self, flags: String, typ: String, kind: usize) -> (r: CommandLineParserError)
        requires
            kind < CMD_LINE_OPTION_ERROR_NUM,
        ensures
            r@ == (ErrorModel { flags: flags@, typ: typ@, error: self@.messages[kind as int] }),
    {
        CommandLineParserError::new(flags, typ, self.errors_list[kind].clone())
    }

    /// The record that a flag token names, to bind a value to it: `--name`
    /// names the record whose long flag is `name`, and any other token names
    /// the record whose short flag is the token's second character.
    fn get_option_mut(&mut self, searched_option: &String) -> (r: Option<&mut CommandLineOption>)
        ensures
            match find_flag(old(self)@.options, searched_option@) {
                Some(i) => r matches Some(option) && option@ == old(self)@.options[i]
                    && final(self)@ == old(self)@.with_options(
                    old(self)@.options.update(i, final(option)@),
                ),
                None => r is None && final(self)@ == old(self)@,
            },
    {
        let cs = to_chars(searched_option.as_str());
        let is_long = cs.len() >= 2 && cs[0] == '-' && cs[1] == '-';
        let name = if is_long {
            from_chars(&cs, 2, cs.len())
        } else {
            String::new()
        };
        let short = if cs.len() >= 2 {
            cs[1]
        } else {
            ' '
        };
        let ghost wanted = if is_long {
            has_long_flag(searched_option@.skip(2))
        } else {
            has_short_flag(short_of_token(searched_option@))
        };
        let mut i: usize = 0;
        while i < self.options.len()
            invariant
                i <= self.options@.len(),
                *self == *old(self),
                is_long == is_long_token(searched_option@),
                is_long ==> name@ == searched_option@.skip(2),
                short == short_of_token(searched_option@),
                wanted == if is_long {
                    has_long_flag(searched_option@.skip(2))
                } else {
                    has_short_flag(short_of_token(searched_option@))
                },
                forall|j: int| 0 <= j < i ==> !wanted(#[trigger] self@.options[j]),
            decreases self.options@.len() - i,
        {
            let option = &self.options[i];
            let found = if is_long {
                !option.long_form().as_str().is_empty() && *option.long_form() == name
            } else {
                EMPTY_SHORT_FORM != option.short_form() && option.short_form() == short
            };
            assert(found == wanted(self@.options[i as int]));
            if found {
                proof {
                    lemma_first_match_is(self@.options, wanted, i as int);
                }
                let r = &mut self.options[i];
                proof {
                    assert(models(old(self).options@.update(i as int, *final(r))) =~= models(
                        old(self).options@,
                    ).update(i as int, final(r)@));
                }
                return Some(r);
            }
            i += 1;
        }
        proof {
            lemma_first_match_none(self@.options, wanted);
        }
        None
    }

    /// Fails for the first mandatory record, in registration order, that
    /// has no value.
    pub fn check_mandatory_options(&self) -> (r: Result<(), CommandLineParserError>)
        ensures
            match mandatory_error(self@.options, self@.messages) {
                Some(e) => r matches Err(err) && err@ == e,
                None => r is Ok,
            },
    {
        let mut i: usize = 0;
        while i < self.options.len()
            invariant
                i <= self.options@.len(),
                forall|j: int| 0 <= j < i ==> !is_missing()(#[trigger] self@.options[j]),
            decreases self.options@.len() - i,
        {
            let option = &self.options[i];
            if option.is_mandatory() && !option.is_set() {
                proof {
                    lemma_first_match_is(self@.options, is_missing(), i as int);
                }
                return Err(self.error_about(i, MANDATORY_OPTION_HAS_NOT_SET_ERROR_IDX));
            }
            i += 1;
        }
        proof {
            lemma_first_match_none(self@.options, is_missing());
        }
        Ok(())
    }

    /// Handles the token at `args[*idx]`, which starts with two dashes: the
    /// separator, or a long option with its value. `idx` moves on one place
    /// when the option takes the next token, and stays where it was
    /// otherwise, also on an error; `dashdash` is set when the separator ends
    /// the options.
    fn parse_long_form_option(
        &mut self,
        args: &Vec<String>,
        arg: &String,
        idx: &mut usize,
        dashdash: &mut bool,
    ) -> (r: Result<(), CommandLineParserError>)
        requires
            *old(idx) < args@.len(),
            arg@ == args@[*old(idx) as int]@,
            token_kind(arg@) is Long || token_kind(arg@) is Separator,
        ensures
            token_kind(arg@) is Separator ==> {
                &&& r is Ok
                &&& final(self)@ == old(self)@
                &&& *final(idx) == *old(idx)
                &&& *final(dashdash) == (*old(dashdash) || old(self)@.parsing_mode
                    == ParsingMode::PositionalArgumentsMode)
            },
            token_kind(arg@) is Long ==> {
                let step = long_step(
                    old(self)@.options,
                    old(self)@.messages,
                    texts(args@),
                    *old(idx) as int,
                );
                &&& final(self)@ == old(self)@.with_options(step.options)
                &&& *final(dashdash) == *old(dashdash)
                &&& *final(idx) == *old(idx) + step.taken
                &&& *final(idx) < args@.len()
                &&& match r {
                    Ok(()) => step.error is None,
                    Err(e) => step.error == Some(e@),
                }
            },
    {
        let args_len = args.len();
        let cs = to_chars(arg.as_str());
        if 2 == cs.len() {
            if self.parsing_mode == ParsingMode::PositionalArgumentsMode {
                *dashdash = true;
            }
            return Ok(());
        }
        let ghost tokens = texts(args@);
        let ghost before = self@;
        let total = cs.len();
        let position = find_char(&cs, '=');
        let end = match position {
            Some(p) => p,
            None => total,
        };
        let opt = from_chars(&cs, 0, end);
        proof {
            assert(tokens[*idx as int] == arg@);
            assert(opt@ == arg@.take(key_end(arg@)));
            assert(before.with_options(before.options) == before);
            lemma_find_flag_in_range(before.options, opt@);
            if let Some(i) = find_flag(before.options, opt@) {
                assert(before.options.update(i, before.options[i]) =~= before.options);
            }
        }
        if let Some(option) = self.get_option_mut(&opt) {
            let opt_arg: String;
            match position {
                Some(p) => {
                    opt_arg = from_chars(&cs, p + 1, total);
                },
                None => {
                    if option.option_type() == CommandLineOptionType::Boolean {
                        opt_arg = "true".to_owned();
                    } else {
                        if *idx < args_len - 1 {
                            *idx = *idx + 1;
                            opt_arg = args[*idx].clone();
                        } else {
                            let flags = option.get_flags();
                            let typ = option.get_type_name();
                            return Err(
                                self.error_with(flags, typ, MISSING_OPTION_ARGUMENT_ERROR_IDX),
                            );
                        }
                    }
                },
            }
            if opt_arg.as_str().is_empty() {
                let flags = option.get_flags();
                let typ = option.get_type_name();
                return Err(self.error_with(flags, typ, MISSING_OPTION_ARGUMENT_ERROR_IDX));
            }
            if let Err(error_idx) = option.add_value(opt_arg.as_str()) {
                let flags = option.get_flags();
                let typ = option.get_type_name();
                return Err(self.error_with(flags, typ, error_idx));
            }
        } else {
            return Err(self.error_without(arg.clone(), OPTION_NOT_FOUND_ERROR_IDX));
        }
        Ok(())
    }

    /// Handles the token at `args[*idx]`, which starts with one dash: a
    /// cluster of short options with the value attached to it. `idx` moves
    /// on one place for every following token that an option takes.
    fn parse_short_form_option(&mut self, args: &Vec<String>, arg: &String, idx: &mut usize) -> (r:
        Result<(), CommandLineParserError>)
        requires
            *old(idx) < args@.len(),
            arg@ == args@[*old(idx) as int]@,
            token_kind(arg@) is Short,
        ensures
            ({
                let step = short_step(
                    old(self)@.options,
                    old(self)@.messages,
                    texts(args@),
                    *old(idx) as int,
                );
                &&& final(self)@ == old(self)@.with_options(step.options)
                &&& *final(idx) == *old(idx) + step.taken
                &&& *final(idx) < args@.len()
                &&& match r {
                    Ok(()) => step.error is None,
                    Err(e) => step.error == Some(e@),
                }
            }),
    {
        let args_len = args.len();
        let cs = to_chars(arg.as_str());
        let position = find_char(&cs, '=');
        let end = match position {
            Some(p) => p,
            None => cs.len(),
        };
        let total = cs.len();
        let opt_arg = match position {
            Some(p) => from_chars(&cs, p + 1, total),
            None => String::new(),
        };
        proof {
            lemma_first_position(cs@, '=');
        }
        let ghost tokens = texts(args@);
        let ghost before = self@;
        let ghost cluster = arg@.subrange(1, end as int);
        let ghost first = *idx as int;
        assert(tokens[first] == arg@);
        assert(before.with_options(before.options) == before);
        let mut opt_arg_assigned = false;
        let mut char_idx: usize = 1;
        while char_idx < end
            invariant
                1 <= char_idx <= end <= cs@.len(),
                cs@ == arg@,
                cluster == arg@.subrange(1, end as int),
                tokens == texts(args@),
                args_len == args@.len(),
                first == *old(idx),
                before == old(self)@,
                first <= *idx < args@.len(),
                self@ == before.with_options(self@.options),
                cluster_from(
                    self@.options,
                    before.messages,
                    tokens,
                    first,
                    cluster,
                    char_idx - 1,
                    opt_arg@,
                    opt_arg_assigned,
                    (*idx - first) as nat,
                ) == short_step(before.options, before.messages, tokens, first),
            decreases end - char_idx,
        {
            let mut opt = String::new();
            opt.push('-');
            opt.push(cs[char_idx]);
            let ghost current = self@;
            proof {
                assert(opt@ =~= seq!['-', cluster[char_idx - 1]]);
                assert(current.with_options(current.options) == current);
                lemma_find_flag_in_range(current.options, opt@);
                if let Some(i) = find_flag(current.options, opt@) {
                    assert(current.options.update(i, current.options[i]) =~= current.options);
                }
                reveal_strlit("true");
            }
            if let Some(option) = self.get_option_mut(&opt) {
                if !opt_arg.as_str().is_empty() {
                    if opt_arg_assigned {
                        let flags = option.get_flags();
                        let typ = option.get_type_name();
                        return Err(
                            self.error_with(flags, typ, OPTION_ARGUMENT_ALREADY_ASSIGNED_ERROR_IDX),
                        );
                    }
                    if let Err(error_idx) = option.add_value(opt_arg.as_str()) {
                        let flags = option.get_flags();
                        let typ = option.get_type_name();
                        return Err(self.error_with(flags, typ, error_idx));
                    }
                    opt_arg_assigned = true;
                } else if option.option_type() == CommandLineOptionType::Boolean {
                    if let Err(error_idx) = option.add_value("true") {
                        let flags = option.get_flags();
                        let typ = option.get_type_name();
                        return Err(self.error_with(flags, typ, error_idx));
                    }
                } else {
                    if *idx < args_len - 1 {
                        *idx = *idx + 1;
                        let value = &args[*idx];
                        assert(tokens[*idx as int] == value@);
                        if value.as_str().is_empty() {
                            let flags = option.get_flags();
                            let typ = option.get_type_name();
                            return Err(
                                self.error_with(flags, typ, MISSING_OPTION_ARGUMENT_ERROR_IDX),
                            );
                        }
                        if let Err(error_idx) = option.add_value(value.as_str()) {
                            let flags = option.get_flags();
                            let typ = option.get_type_name();
                            return Err(self.error_with(flags, typ, error_idx));
                        }
                    } else {
                        let flags = option.get_flags();
                        let typ = option.get_type_name();
                        return Err(self.error_with(flags, typ, MISSING_OPTION_ARGUMENT_ERROR_IDX));
                    }
                }
            }
            char_idx = char_idx + 1;
        }
        Ok(())
    }

    /// Parses an argument vector: the first argument is the program name,
    /// and the others are scanned left to right. Values are bound to the
    /// options they name; tokens that are no options are collected. The
    /// first error ends the scan, and what was bound before it stays bound.
    /// After a scan without error, every mandatory option must have a value.
    pub fn parse(&mut self, process_args: &Vec<String>) -> (r: Result<(), CommandLineParserError>)
        requires
            process_args@.len() > 0,
        ensures
            ({
                let outcome = parse_outcome(old(self)@, texts(process_args@));
                &&& final(self)@ == outcome.parser
                &&& match r {
                    Ok(()) => outcome.error is None,
                    Err(e) => outcome.error == Some(e@),
                }
            }),
            old(self)@.wf() ==> final(self)@.wf(),
    {
        proof {
            law_parse_only_adds(old(self)@, texts(process_args@));
        }
        let mut args: Vec<String> = Vec::new();
        let mut n: usize = 1;
        while n < process_args.len()
            invariant
                1 <= n <= process_args@.len(),
                texts(args@) == texts(process_args@).subrange(1, n as int),
            decreases process_args@.len() - n,
        {
            let ghost grown = args@;
            args.push(process_args[n].clone());
            proof {
                lemma_texts_push(grown, process_args@[n as int]);
                assert(texts(process_args@).subrange(1, n + 1) =~= texts(process_args@).subrange(
                    1,
                    n as int,
                ).push(process_args@[n as int]@));
            }
            n += 1;
        }
        assert(texts(args@) =~= texts(process_args@).skip(1));
        self.program_name = process_args[0].clone();
        let ghost tokens = texts(args@);
        let ghost start = self@;
        let mut dashdash: bool = false;
        let mut idx: usize = 0;
        let args_len: usize = args.len();
        while idx < args_len
            invariant
                idx <= args_len,
                args_len == args@.len(),
                tokens == texts(args@),
                process_args@.len() > 0,
                old(self)@.wf() ==> parse_outcome(old(self)@, texts(process_args@)).parser.wf(),
                tokens == texts(process_args@).skip(1),
                start == (ParserModel { program_name: process_args@[0]@, ..old(self)@ }),
                self@.messages.len() == CMD_LINE_OPTION_ERROR_NUM,
                scan_from(self@, tokens, idx as int, dashdash) == scan_from(start, tokens, 0, false),
            decreases args_len - idx,
        {
            let arg: &String = &args[idx];
            assert(tokens[idx as int] == arg@);
            if !dashdash {
                let cs = to_chars(arg.as_str());
                if cs.len() > 0 && cs[0] == '-' {
                    if cs.len() > 1 && cs[1] == '-' {
                        if let Err(error) = self.parse_long_form_option(
                            &args,
                            arg,
                            &mut idx,
                            &mut dashdash,
                        ) {
                            return Err(error);
                        }
                    } else {
                        if let Err(error) = self.parse_short_form_option(&args, arg, &mut idx) {
                            return Err(error);
                        }
                    }
                } else {
                    proof {
                        lemma_texts_push(self.remaining_args@, *arg);
                    }
                    self.remaining_args.push(arg.clone());
                }
            } else {
                proof {
                    lemma_texts_push(self.positional_args@, *arg);
                }
                self.positional_args.push(arg.clone());
            }
            idx = idx + 1;
        }
        self.check_mandatory_options()
    }

    /// The first value bound to the option with the handle `option_hash`,
    /// read as a `T`.
    ///
    /// Fails with "option identifier not found" when no option has the
    /// handle, with "is not set" when the option has no value, and with "is
    /// not of the required type" when the value is no `T` or `T` does not
    /// belong to the kind of the option.
    pub fn get_value<T: OptionValue>(&self, option_hash: u64) -> (r: Result<
        T,
        CommandLineParserError,
    >)
        ensures
            match value_error::<T>(self@, option_hash) {
                Some(e) => r matches Err(err) && err@ == e,
                None => r matches Ok(value) && T::denotes(
                    self@.options[find_handle(self@.options, option_hash)->0].values[0],
                    value,
                ),
            },
    {
        match self.find_by_handle(option_hash) {
            Some(i) => {
                let option = &self.options[i];
                if let Some(value) = option.get_value() {
                    if let Some(parsed_value) = T::from_text(value.as_str()) {
                        let parsed_value_type = CommandLineOptionType::from(T::native());
                        if parsed_value_type == option.option_type() {
                            return Ok(parsed_value);
                        }
                    }
                    return Err(self.error_about(i, OPTION_IS_NOT_OF_REQUIRED_TYPE_ERROR_IDX));
                }
                Err(self.error_about(i, OPTION_IS_NOT_SET_ERROR_IDX))
            },
            None => Err(self.error_without(String::new(), OPTION_IDENTIFIER_NOT_FOUND_ERROR_IDX)),
        }
    }

    /// All values bound to the handle `option_hash`, read as `T`s, oldest
    /// first; or, if one of them is no `T`, the error "is not of the
    /// required type" about the first option that holds such a value.
    pub fn read_values<T: OptionValue>(&self, option_hash: u64) -> (r: Result<
        Vec<T>,
        CommandLineParserError,
    >)
        ensures
            match values_error::<T>(self@, option_hash) {
                Some(e) => r matches Err(err) && err@ == e,
                None => r matches Ok(values) && all_denoted::<T>(
                    all_values_of(self@, option_hash),
                    values@,
                ),
            },
            r is Ok <==> all_accepted::<T>(all_values_of(self@, option_hash)),
    {
        let ghost unreadable = holds_unreadable::<T>(option_hash);
        let mut values: Vec<T> = Vec::new();
        let mut i: usize = 0;
        while i < self.options.len()
            invariant
                i <= self.options@.len(),
                unreadable == holds_unreadable::<T>(option_hash),
                forall|j: int| 0 <= j < i ==> !unreadable(#[trigger] self@.options[j]),
                all_denoted::<T>(values_of(self@.options, option_hash, i as int), values@),
                all_accepted::<T>(values_of(self@.options, option_hash, i as int)),
            decreases self.options@.len() - i,
        {
            let option = &self.options[i];
            if option_hash == option.calculate_hash() {
                let option_values = option.get_values();
                let ghost before = values_of(self@.options, option_hash, i as int);
                let ghost bound = self@.options[i as int].values;
                let mut j: usize = 0;
                while j < option_values.len()
                    invariant
                        j <= option_values@.len(),
                        i < self.options@.len(),
                        unreadable == holds_unreadable::<T>(option_hash),
                        forall|j: int| 0 <= j < i ==> !unreadable(#[trigger] self@.options[j]),
                        self@.options[i as int].fingerprint() == option_hash,
                        bound == self@.options[i as int].values,
                        bound == texts(option_values@),
                        before == values_of(self@.options, option_hash, i as int),
                        all_denoted::<T>(before + bound.take(j as int), values@),
                        all_accepted::<T>(before + bound.take(j as int)),
                        all_accepted::<T>(bound.take(j as int)),
                    decreases option_values@.len() - j,
                {
                    assert(bound[j as int] == option_values@[j as int]@);
                    match T::from_text(option_values[j].as_str()) {
                        Some(parsed_value) => {
                            values.push(parsed_value);
                            assert(before + bound.take(j + 1) =~= (before + bound.take(
                                j as int,
                            )).push(bound[j as int]));
                            assert(bound.take(j + 1) =~= bound.take(j as int).push(
                                bound[j as int],
                            ));
                        },
                        None => {
                            proof {
                                lemma_values_of_holds(
                                    self@.options,
                                    option_hash,
                                    self@.options.len() as int,
                                    i as int,
                                    j as int,
                                );
                                assert(unreadable(self@.options[i as int]));
                                lemma_first_match_is(self@.options, unreadable, i as int);
                            }
                            return Err(
                                self.error_about(i, OPTION_IS_NOT_OF_REQUIRED_TYPE_ERROR_IDX),
                            );
                        },
                    }
                    j += 1;
                }
                assert(bound.take(j as int) =~= bound);
            }
            i += 1;
        }
        proof {
            lemma_first_match_none(self@.options, unreadable);
        }
        Ok(values)
    }

    /// All values bound to the handle `option_hash`, read as `T`s, oldest
    /// first. `None` when nothing is bound to the handle, and when one of
    /// the values is no `T`.
    pub fn get_values<T: OptionValue>(&self, option_hash: u64) -> (r: Option<Vec<T>>)
        ensures
            r is Some <==> all_values_of(self@, option_hash).len() > 0 && all_accepted::<T>(
                all_values_of(self@, option_hash),
            ),
            r matches Some(values) ==> all_denoted::<T>(
                all_values_of(self@, option_hash),
                values@,
            ),
    {
        match self.read_values::<T>(option_hash) {
            Ok(values) => {
                if values.len() > 0 {
                    Some(values)
                } else {
                    None
                }
            },
            Err(_) => None,
        }
    }

    /// The greatest byte length among the flags texts of the options; the
    /// width of the flags column of the help text.
    pub fn get_max_flags_len(&self) -> (r: usize)
        ensures
            r == max_flags_len(self@.options),
    {
        let mut result: usize = 0;
        let mut i: usize = 0;
        while i < self.options.len()
            invariant
                i <= self.options@.len(),
                result == max_flags_len(self@.options.take(i as int)),
            decreases self.options@.len() - i,
        {
            let flags = self.options[i].get_flags();
            let len = flags.as_str().as_bytes().len();
            assert(self@.options.take(i + 1).drop_last() =~= self@.options.take(i as int));
            if result < len {
                result = len;
            }
            i += 1;
        }
        assert(self@.options.take(i as int) =~= self@.options);
        result
    }

    /// The greatest byte length among the argument texts of the options; the
    /// width of the argument column of the help text.
    pub fn get_max_arg_text_len(&self) -> (r: usize)
        ensures
            r == max_arg_text_len(self@.options),
    {
        let mut result: usize = 0;
        let mut i: usize = 0;
        while i < self.options.len()
            invariant
                i <= self.options@.len(),
                result == max_arg_text_len(self@.options.take(i as int)),
            decreases self.options@.len() - i,
        {
            let len = self.options[i].arg_text().as_str().as_bytes().len();
            assert(self@.options.take(i + 1).drop_last() =~= self@.options.take(i as int));
            if result < len {
                result = len;
            }
            i += 1;
        }
        assert(self@.options.take(i as int) =~= self@.options);
        result
    }

    /// The help text: a header with the program name, if a scan has set it,
    /// and one line per option, in registration order.
    pub fn get_help_text(&self) -> (r: String)
        ensures
            r@ == help_text_of(self@),
    {
        let mut result = String::new();
        if !self.program_name.as_str().is_empty() {
            result.append(self.program_name.as_str());
            result.append(" [OPTIONS]:\n");
        }
        let ghost header = result@;
        let flags_width = self.get_max_flags_len();
        let arg_width = self.get_max_arg_text_len();
        let mut i: usize = 0;
        assert(result@ =~= header + help_lines(self@.options, 0, flags_width as nat, arg_width as nat));
        while i < self.options.len()
            invariant
                i <= self.options@.len(),
                flags_width == max_flags_len(self@.options),
                arg_width == max_arg_text_len(self@.options),
                result@ == header + help_lines(
                    self@.options,
                    i as int,
                    flags_width as nat,
                    arg_width as nat,
                ),
            decreases self.options@.len() - i,
        {
            proof {
                lemma_max_arg_text_len_bounds(self@.options, i as int);
                reveal_strlit("\t");
            }
            let line = self.options[i].help_text(flags_width, arg_width);
            result.push('\t');
            result.append(line.as_str());
            assert(result@ =~= header + help_lines(
                self@.options,
                i + 1,
                flags_width as nat,
                arg_width as nat,
            ));
            i += 1;
        }
        result
    }

    /// The tokens of the scans so far that were neither options nor values
    /// of options, in the order met.
    pub fn get_remaining_args(&self) -> (r: &Vec<String>)
        ensures
            texts(r@) == self@.remaining_args,
    {
        &self.remaining_args
    }

    /// The tokens of the scans so far that followed the separator `--`, in
    /// the order met. Empty unless the mode is `PositionalArgumentsMode`.
    pub fn get_positional_args(&self) -> (r: &Vec<String>)
        ensures
            texts(r@) == self@.positional_args,
    {
        &self.positional_args
    }

    /// Sets how a scan treats the separator `--`.
    pub fn set_parsing_mode(&mut self, parsing_mode: ParsingMode)
        ensures
            final(self)@ == (ParserModel { parsing_mode, ..old(self)@ }),
    {
        self.parsing_mode = parsing_mode;
    }
}

} // verus!
