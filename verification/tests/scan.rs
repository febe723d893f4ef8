use rsclp::{CommandLineParser, FPointValue, ParsingMode, CMD_LINE_OPTION_ERROR_NUM};

fn args(items: &[&str]) -> Vec<String> {
    let mut out = vec!["prog".to_string()];
    for item in items {
        out.push(item.to_string());
    }
    out
}

fn owned(items: &[&str]) -> Vec<String> {
    items.iter().map(|s| s.to_string()).collect()
}

#[test]
fn bare_long_boolean_binds_true() {
    let mut clp = CommandLineParser::new(None);
    let flag = clp.add_long_boolean_option("flag", false, "a flag").unwrap();
    assert_eq!(Ok(()), clp.parse(&args(&["--flag"])));
    assert!(clp.is_set(&flag));
    assert_eq!(
        clp.get_value::<String>(flag).unwrap_err().to_string(),
        "BooleanCommandLineOptionType --flag: is not of the required type"
    );
    assert_eq!(clp.get_value::<bool>(flag), Ok(true));
    assert_eq!(clp.get_values::<bool>(flag), Some(vec![true]));
}

#[test]
fn long_boolean_with_inline_false_binds_false() {
    let mut clp = CommandLineParser::new(None);
    let flag = clp.add_long_boolean_option("flag", false, "a flag").unwrap();
    assert_eq!(Ok(()), clp.parse(&args(&["--flag=false"])));
    assert!(clp.is_set(&flag));
    assert_eq!(clp.get_value::<bool>(flag), Ok(false));
}

#[test]
fn bare_long_boolean_does_not_take_the_next_token() {
    let mut clp = CommandLineParser::new(None);
    let flag = clp.add_long_boolean_option("flag", false, "a flag").unwrap();
    assert_eq!(Ok(()), clp.parse(&args(&["--flag", "false"])));
    assert_eq!(clp.get_value::<bool>(flag), Ok(true));
    assert_eq!(clp.get_remaining_args(), &owned(&["false"]));
}

#[test]
fn short_cluster_of_booleans_binds_true_to_all() {
    let mut clp = CommandLineParser::new(None);
    let x = clp.add_short_boolean_option('x', false, "x").unwrap();
    let v = clp.add_boolean_option('v', "verbose", false, "v").unwrap();
    let z = clp.add_boolean_option('z', "zip", false, "z").unwrap();
    assert_eq!(Ok(()), clp.parse(&args(&["-xvz"])));
    assert_eq!(clp.get_value::<bool>(x), Ok(true));
    assert_eq!(clp.get_value::<bool>(v), Ok(true));
    assert_eq!(clp.get_value::<bool>(z), Ok(true));
    assert!(clp.get_remaining_args().is_empty());
}

#[test]
fn cluster_value_goes_to_one_flag_only() {
    let mut clp = CommandLineParser::new(None);
    let c = clp.add_short_string_option('c', false, "file", "config").unwrap();
    let v = clp.add_string_option('V', "verbose", false, "file", "other").unwrap();
    assert_eq!(
        clp.parse(&args(&["-cV=file.txt"])).unwrap_err().to_string(),
        "StringCommandLineOptionType -V/--verbose: option argument already assigned"
    );
    assert_eq!(clp.get_value::<String>(c), Ok("file.txt".to_string()));
    assert!(!clp.is_set(&v));
}

#[test]
fn cluster_of_booleans_then_value_taking_flag() {
    let mut clp = CommandLineParser::new(None);
    let x = clp.add_boolean_option('x', "extract", false, "x").unwrap();
    let v = clp.add_boolean_option('v', "verbose", false, "v").unwrap();
    let f = clp.add_string_option('f', "file", false, "file", "f").unwrap();
    assert_eq!(Ok(()), clp.parse(&args(&["-xvf", "a.tar", "rest"])));
    assert_eq!(clp.get_value::<bool>(x), Ok(true));
    assert_eq!(clp.get_value::<bool>(v), Ok(true));
    assert_eq!(clp.get_value::<String>(f), Ok("a.tar".to_string()));
    assert_eq!(clp.get_remaining_args(), &owned(&["rest"]));
}

#[test]
fn cluster_inline_value_goes_to_the_first_flag() {
    let mut clp = CommandLineParser::new(None);
    let f = clp.add_string_option('f', "file", false, "file", "f").unwrap();
    let x = clp.add_boolean_option('x', "extract", false, "x").unwrap();
    assert_eq!(
        clp.parse(&args(&["-fx=a.tar"])).unwrap_err().to_string(),
        "BooleanCommandLineOptionType -x/--extract: option argument already assigned"
    );
    assert_eq!(clp.get_value::<String>(f), Ok("a.tar".to_string()));
    assert!(!clp.is_set(&x));
}

#[test]
fn boolean_after_a_flag_that_took_the_next_token_binds_true() {
    let mut clp = CommandLineParser::new(None);
    let f = clp.add_string_option('f', "file", false, "file", "f").unwrap();
    let x = clp.add_boolean_option('x', "extract", false, "x").unwrap();
    assert_eq!(Ok(()), clp.parse(&args(&["-fx", "a.tar", "rest"])));
    assert_eq!(clp.get_value::<String>(f), Ok("a.tar".to_string()));
    assert_eq!(clp.get_value::<bool>(x), Ok(true));
    assert_eq!(clp.get_remaining_args(), &owned(&["rest"]));
}

#[test]
fn each_value_taking_flag_of_a_cluster_takes_its_own_token() {
    let mut clp = CommandLineParser::new(None);
    let c = clp.add_short_string_option('c', false, "file", "config").unwrap();
    let n = clp.add_integer_option('n', "number", false, "n", "n").unwrap();
    let b = clp.add_boolean_option('b', "bool", false, "b").unwrap();
    assert_eq!(Ok(()), clp.parse(&args(&["-cbn", "file.txt", "12", "rest", "-nc", "13", "other"])));
    assert_eq!(clp.get_values::<String>(c), Some(owned(&["file.txt", "other"])));
    assert_eq!(clp.get_values::<i32>(n), Some(vec![12, 13]));
    assert_eq!(clp.get_values::<bool>(b), Some(vec![true]));
    assert_eq!(clp.get_remaining_args(), &owned(&["rest"]));
}

#[test]
fn second_value_taking_flag_without_a_token_left_is_a_missing_argument() {
    let mut clp = CommandLineParser::new(None);
    let verbose = clp.add_integer_option('V', "verbose", false, "level", "x").unwrap();
    let c = clp.add_short_string_option('c', false, "file path", "x").unwrap();
    assert_eq!(
        clp.parse(&args(&["-cV", "goofy.txt"])).unwrap_err().to_string(),
        "IntegerCommandLineOptionType -V/--verbose: missing option argument"
    );
    assert_eq!(clp.get_value::<String>(c), Ok("goofy.txt".to_string()));
    assert!(!clp.is_set(&verbose));
    assert_eq!(
        clp.parse(&args(&["-cV", "goofy.txt", ""])).unwrap_err().to_string(),
        "IntegerCommandLineOptionType -V/--verbose: missing option argument"
    );
}

#[test]
fn long_names_match_exactly() {
    let mut clp = CommandLineParser::new(None);
    let help = clp.add_help_option("x").unwrap();
    assert_eq!(
        clp.parse(&args(&["--hel"])).unwrap_err().to_string(),
        "UndefinedCommandLineOptionType --hel: option not found"
    );
    assert_eq!(
        clp.parse(&args(&["--helper", "--help"])).unwrap_err().to_string(),
        "UndefinedCommandLineOptionType --helper: option not found"
    );
    assert!(!clp.is_set(&help));
}

#[test]
fn unknown_short_character_is_skipped() {
    let mut clp = CommandLineParser::new(None);
    let x = clp.add_short_boolean_option('x', false, "x").unwrap();
    assert_eq!(Ok(()), clp.parse(&args(&["-qxw", "-", "-q", "-=v", "-q-x"])));
    assert_eq!(clp.get_values::<bool>(x), Some(vec![true, true]));
    assert!(clp.get_remaining_args().is_empty());
}

#[test]
fn dash_is_never_a_short_flag() {
    let mut clp = CommandLineParser::new(None);
    let dash = clp.add_short_boolean_option('-', false, "dash").unwrap();
    let x = clp.add_boolean_option('x', "extract", false, "x").unwrap();
    assert_eq!(Ok(()), clp.parse(&args(&["-x-"])));
    assert!(clp.is_set(&x));
    assert!(!clp.is_set(&dash));
}

#[test]
fn unknown_long_option_is_an_error_with_the_whole_token() {
    let mut clp = CommandLineParser::new(None);
    let _ = clp.add_help_option("help").unwrap();
    assert_eq!(
        clp.parse(&args(&["--unknown=3"])).unwrap_err().to_string(),
        "UndefinedCommandLineOptionType --unknown=3: option not found"
    );
    assert_eq!(
        clp.parse(&args(&["--=3"])).unwrap_err().to_string(),
        "UndefinedCommandLineOptionType --=3: option not found"
    );
    assert_eq!(
        clp.parse(&args(&["---"])).unwrap_err().to_string(),
        "UndefinedCommandLineOptionType ---: option not found"
    );
}

#[test]
fn long_option_takes_an_option_looking_next_token() {
    let mut clp = CommandLineParser::new(None);
    let config = clp.add_string_option('c', "config", false, "file", "c").unwrap();
    let help = clp.add_help_option("help").unwrap();
    assert_eq!(Ok(()), clp.parse(&args(&["--config", "--help", "-c", "-h"])));
    assert_eq!(
        clp.get_values::<String>(config),
        Some(vec!["--help".to_string(), "-h".to_string()])
    );
    assert!(!clp.is_set(&help));
}

#[test]
fn empty_next_token_is_a_missing_argument() {
    let mut clp = CommandLineParser::new(None);
    let _ = clp.add_string_option('c', "config", false, "file", "c").unwrap();
    assert_eq!(
        clp.parse(&args(&["--config", ""])).unwrap_err().to_string(),
        "StringCommandLineOptionType -c/--config: missing option argument"
    );
    assert_eq!(
        clp.parse(&args(&["-c", ""])).unwrap_err().to_string(),
        "StringCommandLineOptionType -c/--config: missing option argument"
    );
}

#[test]
fn short_option_with_empty_inline_value_takes_the_next_token() {
    let mut clp = CommandLineParser::new(None);
    let config = clp.add_string_option('c', "config", false, "file", "c").unwrap();
    assert_eq!(Ok(()), clp.parse(&args(&["-c=", "next"])));
    assert_eq!(clp.get_value::<String>(config), Ok("next".to_string()));
}

#[test]
fn inline_value_keeps_later_equal_signs() {
    let mut clp = CommandLineParser::new(None);
    let define = clp.add_string_option('D', "define", false, "pair", "d").unwrap();
    assert_eq!(Ok(()), clp.parse(&args(&["--define=a=b", "-D=c=d=e"])));
    assert_eq!(
        clp.get_values::<String>(define),
        Some(vec!["a=b".to_string(), "c=d=e".to_string()])
    );
}

#[test]
fn mandatory_check_comes_after_the_scan() {
    let mut clp = CommandLineParser::new(None);
    let _ = clp.add_string_option('c', "config", true, "file", "c").unwrap();
    let _ = clp.add_integer_option('n', "number", true, "n", "n").unwrap();
    assert_eq!(
        clp.parse(&args(&["plain"])).unwrap_err().to_string(),
        "StringCommandLineOptionType -c/--config: mandatory option has not been set"
    );
    assert_eq!(
        clp.parse(&args(&["--nothing"])).unwrap_err().to_string(),
        "UndefinedCommandLineOptionType --nothing: option not found"
    );
    assert_eq!(
        clp.parse(&args(&["-c", "file"])).unwrap_err().to_string(),
        "IntegerCommandLineOptionType -n/--number: mandatory option has not been set"
    );
    assert_eq!(Ok(()), clp.parse(&args(&["-n", "3"])));
    assert_eq!(clp.check_mandatory_options(), Ok(()));
}

#[test]
fn plain_tokens_remain_in_order() {
    let mut clp = CommandLineParser::new(None);
    assert_eq!(Ok(()), clp.parse(&args(&["b", "a", "", "c=d", "a"])));
    assert_eq!(clp.get_remaining_args(), &owned(&["b", "a", "", "c=d", "a"]));
    assert!(clp.get_positional_args().is_empty());
}

#[test]
fn separator_is_skipped_in_default_mode() {
    let mut clp = CommandLineParser::new(None);
    let help = clp.add_help_option("help").unwrap();
    assert_eq!(Ok(()), clp.parse(&args(&["a", "--", "-h", "b"])));
    assert_eq!(clp.get_remaining_args(), &owned(&["a", "b"]));
    assert!(clp.get_positional_args().is_empty());
    assert!(clp.is_set(&help));
}

#[test]
fn separator_latches_in_positional_mode() {
    let mut clp = CommandLineParser::new(None);
    clp.set_parsing_mode(ParsingMode::PositionalArgumentsMode);
    let help = clp.add_help_option("help").unwrap();
    assert_eq!(Ok(()), clp.parse(&args(&["a", "--", "-h", "--", "--nope", "b"])));
    assert_eq!(clp.get_remaining_args(), &owned(&["a"]));
    assert_eq!(clp.get_positional_args(), &owned(&["-h", "--", "--nope", "b"]));
    assert!(!clp.is_set(&help));
}

#[test]
fn separator_taken_as_a_value_does_not_latch() {
    let mut clp = CommandLineParser::new(None);
    clp.set_parsing_mode(ParsingMode::PositionalArgumentsMode);
    let config = clp.add_string_option('c', "config", false, "file", "c").unwrap();
    assert_eq!(Ok(()), clp.parse(&args(&["-c", "--", "x"])));
    assert_eq!(clp.get_value::<String>(config), Ok("--".to_string()));
    assert_eq!(clp.get_remaining_args(), &owned(&["x"]));
    assert!(clp.get_positional_args().is_empty());
}

#[test]
fn repeated_option_accumulates_in_order() {
    let mut clp = CommandLineParser::new(None);
    let config = clp.add_string_option('c', "config", false, "file", "c").unwrap();
    assert_eq!(Ok(()), clp.parse(&args(&["--config=a", "-c", "b", "--config", "c"])));
    assert_eq!(
        clp.get_values::<String>(config),
        Some(vec!["a".to_string(), "b".to_string(), "c".to_string()])
    );
    assert_eq!(clp.get_value::<String>(config), Ok("a".to_string()));
}

#[test]
fn second_parse_adds_to_the_first() {
    let mut clp = CommandLineParser::new(None);
    let number = clp.add_integer_option('n', "number", false, "n", "n").unwrap();
    assert_eq!(Ok(()), clp.parse(&args(&["-n", "1", "x"])));
    let mut second = vec!["other".to_string()];
    second.extend(owned(&["--number=2", "y"]));
    assert_eq!(Ok(()), clp.parse(&second));
    assert_eq!(clp.get_values::<i32>(number), Some(vec![1, 2]));
    assert_eq!(clp.get_remaining_args(), &owned(&["x", "y"]));
    assert!(clp.get_help_text().starts_with("other [OPTIONS]:\n"));
}

#[test]
fn values_bound_before_an_error_stay_bound() {
    let mut clp = CommandLineParser::new(None);
    let number = clp.add_integer_option('n', "number", false, "n", "n").unwrap();
    assert_eq!(
        clp.parse(&args(&["-n", "1", "plain", "-n", "x.5", "-n=1.5", "-n", "3"]))
            .unwrap_err()
            .to_string(),
        "IntegerCommandLineOptionType -n/--number: cannot set a floating point value to this option type"
    );
    assert_eq!(
        clp.get_values::<String>(number),
        Some(vec!["1".to_string(), "x.5".to_string()])
    );
    assert_eq!(clp.get_values::<i64>(number), None);
    assert_eq!(clp.read_values::<i64>(number).unwrap_err().to_string(),
        "IntegerCommandLineOptionType -n/--number: is not of the required type");
    assert_eq!(clp.get_value::<i64>(number), Ok(1));
    assert_eq!(clp.get_remaining_args(), &owned(&["plain"]));
}

#[test]
fn boolean_value_given_to_a_number_is_rejected() {
    let mut clp = CommandLineParser::new(None);
    let _ = clp.add_integer_option('n', "number", false, "n", "n").unwrap();
    let _ = clp.add_fpoint_option('r', "ratio", false, "r", "r").unwrap();
    let _ = clp.add_boolean_option('b', "bool", false, "b").unwrap();
    assert_eq!(
        clp.parse(&args(&["--number=true"])).unwrap_err().to_string(),
        "IntegerCommandLineOptionType -n/--number: cannot set a boolean value to this option type"
    );
    assert_eq!(
        clp.parse(&args(&["--ratio", "12"])).unwrap_err().to_string(),
        "FPointCommandLineOptionType -r/--ratio: cannot set an integer value to this option type"
    );
    assert_eq!(
        clp.parse(&args(&["-b=0.5"])).unwrap_err().to_string(),
        "BooleanCommandLineOptionType -b/--bool: cannot set a floating point value to this option type"
    );
}

#[test]
fn retrieval_errors() {
    let mut clp = CommandLineParser::new(None);
    let number = clp.add_integer_option('n', "number", false, "n", "n").unwrap();
    assert_eq!(clp.get_value::<i32>(number + 1).unwrap_err().to_string(),
        "UndefinedCommandLineOptionType : option identifier not found");
    assert!(!clp.is_set(&(number + 1)));
    assert_eq!(clp.get_values::<i32>(number + 1), None);
    assert_eq!(clp.get_value::<i32>(number).unwrap_err().to_string(),
        "IntegerCommandLineOptionType -n/--number: is not set");
    assert_eq!(clp.get_values::<i32>(number), None);
    assert_eq!(clp.read_values::<i32>(number), Ok(vec![]));
    assert_eq!(Ok(()), clp.parse(&args(&["-n", "300"])));
    assert_eq!(clp.get_value::<i32>(number), Ok(300));
    assert_eq!(clp.get_value::<u16>(number), Ok(300));
    assert_eq!(clp.get_value::<i128>(number), Ok(300));
    for error in [
        clp.get_value::<i8>(number).unwrap_err(),
        clp.get_value::<u8>(number).unwrap_err(),
        clp.get_value::<bool>(number).unwrap_err(),
        clp.get_value::<String>(number).unwrap_err(),
        clp.get_value::<FPointValue>(number).unwrap_err(),
    ] {
        assert_eq!(
            error.to_string(),
            "IntegerCommandLineOptionType -n/--number: is not of the required type"
        );
    }
}

#[test]
fn floating_point_option_is_read_as_its_text() {
    let mut clp = CommandLineParser::new(None);
    let ratio = clp.add_fpoint_option('r', "ratio", false, "r", "r").unwrap();
    assert_eq!(Ok(()), clp.parse(&args(&["--ratio=123.25", "-r", "-1e3"])));
    let first = clp.get_value::<FPointValue>(ratio).unwrap();
    assert_eq!(first.as_str().parse::<f64>().unwrap(), 123.25);
    let all = clp.get_values::<FPointValue>(ratio).unwrap();
    assert_eq!(all.len(), 2);
    assert_eq!(all[1].as_str().parse::<f32>().unwrap(), -1000.0);
    assert_eq!(
        clp.get_value::<String>(ratio).unwrap_err().to_string(),
        "FPointCommandLineOptionType -r/--ratio: is not of the required type"
    );
}

#[test]
fn caller_supplied_messages_are_used() {
    let mut list = [""; CMD_LINE_OPTION_ERROR_NUM];
    let names = [
        "m0", "m1", "m2", "m3", "m4", "m5", "m6", "m7", "m8", "m9", "m10", "m11", "m12", "m13",
    ];
    for i in 0..CMD_LINE_OPTION_ERROR_NUM {
        list[i] = names[i];
    }
    let mut clp = CommandLineParser::new(Some(list));
    let n = clp.add_integer_option('n', "number", true, "n", "n").unwrap();
    let b = clp.add_boolean_option('b', "bool", false, "b").unwrap();
    let message = |e: rsclp::CommandLineParserError| e.message().clone();
    assert_eq!(message(clp.add_integer_option('n', "number", false, "", "").unwrap_err()), "m0");
    assert_eq!(message(clp.add_integer_option('n', "other", false, "", "").unwrap_err()), "m1");
    assert_eq!(message(clp.add_integer_option('m', "number", false, "", "").unwrap_err()), "m2");
    assert_eq!(message(clp.get_value::<i8>(n).unwrap_err()), "m3");
    assert_eq!(message(clp.parse(&args(&["--nope"])).unwrap_err()), "m5");
    assert_eq!(message(clp.parse(&args(&["-n=true"])).unwrap_err()), "m7");
    assert_eq!(message(clp.parse(&args(&["-b=1"])).unwrap_err()), "m8");
    assert_eq!(message(clp.parse(&args(&["-n=1.5"])).unwrap_err()), "m9");
    assert_eq!(message(clp.parse(&args(&["-n"])).unwrap_err()), "m10");
    assert_eq!(message(clp.parse(&args(&[])).unwrap_err()), "m11");
    assert_eq!(message(clp.get_value::<i8>(n ^ b).unwrap_err()), "m12");
    assert_eq!(message(clp.parse(&args(&["-bb=true"])).unwrap_err()), "m13");
    assert_eq!(Ok(()), clp.parse(&args(&["-n", "1"])));
    assert_eq!(message(clp.get_value::<bool>(n).unwrap_err()), "m4");
}

#[test]
fn options_that_lack_the_same_flag_do_not_clash() {
    let mut clp = CommandLineParser::new(None);
    let alpha = clp.add_long_string_option("alpha", false, "file", "x").unwrap();
    let beta = clp.add_long_string_option("beta", false, "file", "y").unwrap();
    let number = clp.add_long_integer_option("number", false, "n", "n").unwrap();
    assert_eq!(Ok(()), clp.parse(&args(&["--beta=b", "--alpha", "a", "--number=3"])));
    assert_eq!(clp.get_value::<String>(alpha), Ok("a".to_string()));
    assert_eq!(clp.get_value::<String>(beta), Ok("b".to_string()));
    assert_eq!(clp.get_value::<u8>(number), Ok(3));
    assert_eq!(
        clp.add_long_boolean_option("beta", false, "z").unwrap_err().to_string(),
        "StringCommandLineOptionType --beta: long form option already exists"
    );
    assert_eq!(
        clp.add_long_string_option("beta", false, "file", "y").unwrap_err().to_string(),
        "StringCommandLineOptionType --beta: option already exists"
    );

    let mut clp = CommandLineParser::new(None);
    let a = clp.add_short_string_option('a', false, "file", "x").unwrap();
    let b = clp.add_short_string_option('b', false, "file", "y").unwrap();
    assert_eq!(Ok(()), clp.parse(&args(&["-b", "second", "-a=first"])));
    assert_eq!(clp.get_value::<String>(a), Ok("first".to_string()));
    assert_eq!(clp.get_value::<String>(b), Ok("second".to_string()));
    assert_eq!(
        clp.add_short_integer_option('a', false, "n", "n").unwrap_err().to_string(),
        "StringCommandLineOptionType -a: single character option already exists"
    );
    assert_eq!(
        clp.add_short_string_option('a', false, "n", "n").unwrap_err().to_string(),
        "StringCommandLineOptionType -a: option already exists"
    );
}

#[test]
fn short_only_and_long_only_options_live_together() {
    let mut clp = CommandLineParser::new(None);
    let _ = clp.add_short_boolean_option('x', false, "x").unwrap();
    let _ = clp.add_long_boolean_option("extract", false, "x").unwrap();
    let _ = clp.add_short_fpoint_option('r', false, "r", "r").unwrap();
    let _ = clp.add_long_fpoint_option("ratio", false, "r", "r").unwrap();
    assert_eq!(
        clp.add_boolean_option('x', "other", false, "x").unwrap_err().to_string(),
        "BooleanCommandLineOptionType -x: single character option already exists"
    );
    assert_eq!(
        clp.add_boolean_option('y', "ratio", false, "x").unwrap_err().to_string(),
        "FPointCommandLineOptionType --ratio: long form option already exists"
    );
}

#[test]
fn failed_registration_leaves_the_registry_as_it_was() {
    let mut clp = CommandLineParser::new(None);
    let help = clp.add_help_option("help").unwrap();
    let before = clp.get_help_text();
    assert!(clp.add_boolean_option('h', "other", false, "x").is_err());
    assert_eq!(clp.get_help_text(), before);
    let version = clp.add_version_option("version").unwrap();
    assert_ne!(help, version);
    assert_eq!(clp.get_max_flags_len(), "-v/--version".len());
    assert_eq!(clp.get_max_arg_text_len(), 0);
}

#[test]
fn every_registration_shape_and_kind() {
    let mut clp = CommandLineParser::new(None);
    let handles = vec![
        clp.add_boolean_option('a', "aa", false, "h").unwrap(),
        clp.add_integer_option('b', "bb", false, "n", "h").unwrap(),
        clp.add_fpoint_option('c', "cc", false, "r", "h").unwrap(),
        clp.add_string_option('d', "dd", false, "s", "h").unwrap(),
    ];
    assert_eq!(Ok(()), clp.parse(&args(&["-a", "--bb=1", "-c", "1.5", "--dd", "text"])));
    assert_eq!(clp.get_value::<bool>(handles[0]), Ok(true));
    assert_eq!(clp.get_value::<u8>(handles[1]), Ok(1));
    assert_eq!(clp.get_value::<FPointValue>(handles[2]).unwrap().as_str(), "1.5");
    assert_eq!(clp.get_value::<String>(handles[3]), Ok("text".to_string()));

    let mut short = CommandLineParser::new(None);
    let s = short.add_short_fpoint_option('r', false, "r", "h").unwrap();
    assert_eq!(Ok(()), short.parse(&args(&["-r=2.5"])));
    assert_eq!(short.get_value::<FPointValue>(s).unwrap().as_str(), "2.5");
    let mut short = CommandLineParser::new(None);
    let s = short.add_short_integer_option('n', false, "n", "h").unwrap();
    assert_eq!(Ok(()), short.parse(&args(&["-n=-2"])));
    assert_eq!(short.get_value::<i8>(s), Ok(-2));

    let mut long = CommandLineParser::new(None);
    let l = long.add_long_fpoint_option("ratio", false, "r", "h").unwrap();
    assert_eq!(Ok(()), long.parse(&args(&["--ratio", "inf"])));
    assert_eq!(long.get_value::<FPointValue>(l).unwrap().as_str(), "inf");
    let mut long = CommandLineParser::new(None);
    let l = long.add_long_integer_option("number", false, "n", "h").unwrap();
    assert_eq!(Ok(()), long.parse(&args(&["--number", "+5"])));
    assert_eq!(long.get_value::<u64>(l), Ok(5));
}

#[test]
fn parsing_mode_has_a_display_name() {
    assert_eq!(ParsingMode::DefaultParsingMode.unwrap(), "DefaultParsingMode");
    assert_eq!(ParsingMode::PositionalArgumentsMode.unwrap(), "PositionalArgumentsMode");
}

#[test]
fn flags_and_values_beyond_ascii() {
    let mut clp = CommandLineParser::new(None);
    let size = clp.add_string_option('é', "größe", false, "wert", "die größe").unwrap();
    assert_eq!(Ok(()), clp.parse(&args(&["-é=ä=ö", "--größe=ü", "--größe", "ß", "-é", "µ"])));
    assert_eq!(
        clp.get_values::<String>(size),
        Some(owned(&["ä=ö", "ü", "ß", "µ"]))
    );
    assert_eq!(
        clp.parse(&args(&["--grösse=1"])).unwrap_err().to_string(),
        "UndefinedCommandLineOptionType --grösse=1: option not found"
    );
    assert_eq!(clp.get_max_flags_len(), "-é/--größe".len());
    assert_eq!(clp.get_max_arg_text_len(), 4);
}
