use rsclp::{CommandLineParser, FPointValue, ParsingMode};

#[test]
fn short_form_option_already_exists() {
    let mut clp = CommandLineParser::new(None);
    let _ = clp.add_version_option("print-out application version").unwrap();
    let result = clp.add_short_boolean_option('v', false, "print-out application version");
    assert_eq!(
        String::from(
            "BooleanCommandLineOptionType -v/--version: single character option already exists"
        ),
        result.unwrap_err().to_string()
    );
}

#[test]
fn long_form_option_already_exists() {
    let mut clp = CommandLineParser::new(None);
    let _ = clp.add_help_option("print-out help menu").unwrap();
    let result = clp.add_long_boolean_option("help", false, "print-out help menu");
    assert_eq!(
        String::from("BooleanCommandLineOptionType -h/--help: long form option already exists"),
        result.unwrap_err().to_string()
    );
}

#[test]
fn both_form_option_already_exists() {
    let mut clp = CommandLineParser::new(None);
    let _ = clp.add_help_option("print-out help menu").unwrap();
    let mut result = clp.add_boolean_option('h', "help", false, "show this help");
    assert_eq!(
        result.unwrap_err().to_string(),
        String::from("BooleanCommandLineOptionType -h/--help: option already exists")
    );
    result = clp.add_boolean_option('h', "help-all", false, "show this help");
    assert_eq!(
        result.unwrap_err().to_string(),
        String::from(
            "BooleanCommandLineOptionType -h/--help: single character option already exists"
        )
    );
    result = clp.add_boolean_option('H', "help", false, "show this help");
    assert_eq!(
        result.unwrap_err().to_string(),
        String::from("BooleanCommandLineOptionType -h/--help: long form option already exists")
    );
}

#[test]
fn option_help_text() {
    let mut clp = CommandLineParser::new(None);
    let _ = clp.add_version_option("print-out application version").unwrap();
    let _ = clp.add_help_option("print-out help menu").unwrap();
    let _ = clp
        .add_integer_option('V', "verbose", false, "log verbosity", "set verbosity text")
        .unwrap();
    let help_text = "\
\t-v/--version                 print-out application version.
\t   -h/--help                 print-out help menu.
\t-V/--verbose <log verbosity> set verbosity text.\n";
    assert_eq!(clp.get_help_text(), help_text);
}

#[test]
fn show_help() {
    let mut clp = CommandLineParser::new(None);
    let _ = clp.add_version_option("print-out application version").unwrap();
    let _ = clp.add_help_option("print-out help menu").unwrap();
    let _ = clp
        .add_integer_option('V', "verbose", false, "level", "set log verbosity level")
        .unwrap();
    let _ = clp
        .add_short_string_option('c', false, "file path", "configuration file path")
        .unwrap();
    let args = vec!["test_show_help".to_string()];
    assert_eq!(Ok(()), clp.parse(&args));
    println!("{}", clp.get_help_text());
    assert_eq!(
        clp.get_help_text(),
        "test_show_help [OPTIONS]:\n\
\t-v/--version             print-out application version.\n\
\t   -h/--help             print-out help menu.\n\
\t-V/--verbose <level>     set log verbosity level.\n\
\t          -c <file path> configuration file path.\n"
    );
}

#[test]
fn is_not_set() {
    let mut clp = CommandLineParser::new(None);
    let config_option = clp
        .add_string_option('c', "config", false, "file path", "application configuration file")
        .unwrap();
    let args = vec!["is_not_set".to_string()];
    assert_eq!(Ok(()), clp.parse(&args));
    assert_eq!(false, clp.is_set(&config_option));
}

#[test]
fn missing_madatory_option() {
    let mut clp = CommandLineParser::new(None);
    let _ = clp
        .add_string_option('c', "config", true, "file path", "application configuration file")
        .unwrap();
    let args = vec!["is_not_set".to_string()];
    assert_eq!(
        "StringCommandLineOptionType -c/--config: mandatory option has not been set".to_string(),
        clp.parse(&args).unwrap_err().to_string()
    );
}

#[test]
fn missing_option_argument1() {
    let mut clp = CommandLineParser::new(None);
    let _ = clp
        .add_string_option('c', "config", true, "file path", "application configuration file")
        .unwrap();
    let args = vec!["missing_option_argument".to_string(), "-c".to_string()];
    assert_eq!(
        "StringCommandLineOptionType -c/--config: missing option argument".to_string(),
        clp.parse(&args).unwrap_err().to_string()
    );
}

#[test]
fn missing_option_argument2() {
    let mut clp = CommandLineParser::new(None);
    let _ = clp
        .add_string_option('c', "config", true, "file path", "application configuration file")
        .unwrap();
    let args = vec!["missing_option_argument".to_string(), "-c=".to_string()];
    assert_eq!(
        "StringCommandLineOptionType -c/--config: missing option argument".to_string(),
        clp.parse(&args).unwrap_err().to_string()
    );
}

#[test]
fn missing_option_argument3() {
    let mut clp = CommandLineParser::new(None);
    let _ = clp
        .add_string_option('c', "config", true, "file path", "application configuration file")
        .unwrap();
    let args = vec!["missing_option_argument".to_string(), "--config".to_string()];
    assert_eq!(
        "StringCommandLineOptionType -c/--config: missing option argument".to_string(),
        clp.parse(&args).unwrap_err().to_string()
    );
}

#[test]
fn missing_option_argument4() {
    let mut clp = CommandLineParser::new(None);
    let _ = clp
        .add_string_option('c', "config", true, "file path", "application configuration file")
        .unwrap();
    let args = vec!["missing_option_argument".to_string(), "--config=".to_string()];
    assert_eq!(
        "StringCommandLineOptionType -c/--config: missing option argument".to_string(),
        clp.parse(&args).unwrap_err().to_string()
    );
}

#[test]
fn option_is_not_set() {
    let mut clp = CommandLineParser::new(None);
    let _ = clp.add_version_option("print-out application version").unwrap();
    let _ = clp.add_help_option("print-out help menu").unwrap();
    let verbosity = clp
        .add_integer_option('V', "verbose", false, "level", "set log verbosity level")
        .unwrap();
    let _ = clp
        .add_short_string_option('c', false, "file path", "configuration file path")
        .unwrap();
    let args = vec!["test_sho_help".to_string()];
    assert_eq!(Ok(()), clp.parse(&args));
    let value = clp.get_value::<i32>(verbosity);
    assert_eq!(
        "IntegerCommandLineOptionType -V/--verbose: is not set".to_string(),
        value.unwrap_err().to_string()
    );
}

#[test]
fn option_identifier_is_undefined() {
    let mut clp = CommandLineParser::new(None);
    let _ = clp.add_version_option("print-out application version").unwrap();
    let _ = clp.add_help_option("print-out help menu").unwrap();
    let _ = clp
        .add_integer_option('V', "verbose", false, "level", "set log verbosity level")
        .unwrap();
    let _ = clp
        .add_short_string_option('c', false, "file path", "configuration file path")
        .unwrap();
    let args = vec!["test_sho_help".to_string()];
    assert_eq!(Ok(()), clp.parse(&args));
    let value = clp.get_value::<i32>(1u64);
    assert_eq!(
        "UndefinedCommandLineOptionType : option identifier not found".to_string(),
        value.unwrap_err().to_string()
    );
}

#[test]
fn option_get_mismatch_value() {
    let mut clp = CommandLineParser::new(None);
    let _ = clp.add_version_option("print-out application version").unwrap();
    let _ = clp.add_help_option("print-out help menu").unwrap();
    let verbosity = clp
        .add_integer_option('V', "verbose", false, "level", "set log verbosity level")
        .unwrap();
    let _ = clp
        .add_short_string_option('c', false, "file path", "configuration file path")
        .unwrap();
    let args = vec!["test_sho_help".to_string(), "-V".to_string(), "-12".to_string()];
    assert_eq!(Ok(()), clp.parse(&args));
    let value = clp.get_value::<FPointValue>(verbosity);
    assert_eq!(
        "IntegerCommandLineOptionType -V/--verbose: is not of the required type".to_string(),
        value.unwrap_err().to_string()
    );
    let value = clp.get_value::<i8>(verbosity);
    assert_eq!(-12, value.unwrap());
}

#[test]
fn mismatch_assignment() {
    let mut clp = CommandLineParser::new(None);
    let _ = clp.add_version_option("print-out application version").unwrap();
    let _ = clp.add_help_option("print-out help menu").unwrap();
    let _ = clp
        .add_integer_option('V', "verbose", false, "level", "set log verbosity level")
        .unwrap();
    let _ = clp
        .add_short_string_option('c', false, "file path", "configuration file path")
        .unwrap();
    let args = vec!["mismatch_assignment".to_string(), "-V=123.3".to_string()];
    assert_eq!(
        "IntegerCommandLineOptionType -V/--verbose: cannot set a floating point value to this option type"
            .to_string(),
        clp.parse(&args).unwrap_err().to_string()
    );
}

#[test]
fn option_arg_already_assigned() {
    let mut clp = CommandLineParser::new(None);
    let _ = clp.add_version_option("print-out application version").unwrap();
    let _ = clp.add_help_option("print-out help menu").unwrap();
    let _ = clp
        .add_integer_option('V', "verbose", false, "level", "set log verbosity level")
        .unwrap();
    let _ = clp
        .add_short_string_option('c', false, "file path", "configuration file path")
        .unwrap();
    let mut args = vec!["test_sho_help".to_string(), "-cV=goofy.txt".to_string()];
    assert_eq!(
        "IntegerCommandLineOptionType -V/--verbose: option argument already assigned".to_string(),
        clp.parse(&args).unwrap_err().to_string()
    );
    args = vec!["test_sho_help".to_string(), "-cV".to_string(), "goofy.txt".to_string()];
    assert_eq!(
        "IntegerCommandLineOptionType -V/--verbose: missing option argument".to_string(),
        clp.parse(&args).unwrap_err().to_string()
    );
}

#[test]
fn test_boolean_option_eq() {
    let mut clp = CommandLineParser::new(None);
    let version_option = clp.add_version_option("print-out application version").unwrap();
    let args = vec!["test_boolean_option_eq".to_string(), "-v=false".to_string()];
    assert_eq!(Ok(()), clp.parse(&args));
    assert_eq!(true, clp.is_set(&version_option));
    assert_eq!(Ok(false), clp.get_value::<bool>(version_option));
}

#[test]
fn test_boolean_option_arg_already_assigned() {
    let mut clp = CommandLineParser::new(None);
    let _ = clp.add_help_option("print-out help menu").unwrap();
    let _ = clp.add_version_option("print-out application version").unwrap();
    let args = vec!["test_boolean_option_eq".to_string(), "-hv=false".to_string()];
    assert_eq!(
        "BooleanCommandLineOptionType -v/--version: option argument already assigned".to_string(),
        clp.parse(&args).unwrap_err().to_string()
    );
}

#[test]
fn test_long_form_option() {
    let mut clp = CommandLineParser::new(None);
    let config_option = clp
        .add_long_string_option("config", false, "file path", "application configuration file")
        .unwrap();
    let args = vec![
        "test_long_form_option".to_string(),
        "--config=goofy.properties".to_string(),
    ];
    assert_eq!(Ok(()), clp.parse(&args));
    assert_eq!(
        String::from("goofy.properties"),
        clp.get_value::<String>(config_option).unwrap()
    );
}

#[test]
fn test_boolean_long_form_option() {
    let mut clp = CommandLineParser::new(None);
    let help_option = clp.add_help_option("show this help").unwrap();
    let args = vec!["test_boolean_long_form_option".to_string(), "--help=false".to_string()];
    assert_eq!(Ok(()), clp.parse(&args));
    assert_eq!(Ok(false), clp.get_value::<bool>(help_option));
}

#[test]
fn test_get_values() {
    let mut clp = CommandLineParser::new(None);
    let config_option = clp
        .add_string_option('c', "config", false, "file path", "application configuration file")
        .unwrap();
    let _ = clp
        .add_integer_option('V', "verbosity", false, "level", "log verbosity level")
        .unwrap();
    let args = vec![
        "test_get_values".to_string(),
        "--config=config1.properties".to_string(),
        "--verbosity=2".to_string(),
        "-c".to_string(),
        "config2.properties".to_string(),
        "remaining args1".to_string(),
        "--config".to_string(),
        "config3.properties".to_string(),
    ];
    assert_eq!(Ok(()), clp.parse(&args));
    assert_eq!(true, clp.is_set(&config_option));
    let values: Vec<String> = clp.get_values(config_option).unwrap();
    assert_eq!(
        vec![
            "config1.properties".to_string(),
            "config2.properties".to_string(),
            "config3.properties".to_string()
        ],
        values
    );
}

#[test]
fn test_remaining_args() {
    let mut clp = CommandLineParser::new(None);
    let _ = clp
        .add_string_option('c', "config", false, "file path", "application configuration file")
        .unwrap();
    let _ = clp
        .add_integer_option('V', "verbosity", false, "level", "log verbosity level")
        .unwrap();
    let args = vec![
        "test_get_values".to_string(),
        "--config=config1.properties".to_string(),
        "remaining_args1".to_string(),
        "--config".to_string(),
        "config2.properties".to_string(),
        "remaining_args2".to_string(),
        "--verbosity=2".to_string(),
        "-c".to_string(),
        "config3.properties".to_string(),
        "remaining_args3".to_string(),
    ];
    assert_eq!(Ok(()), clp.parse(&args));
    let remaining_args = vec![
        "remaining_args1".to_string(),
        "remaining_args2".to_string(),
        "remaining_args3".to_string(),
    ];
    assert_eq!(clp.get_remaining_args(), &remaining_args);
    println!("get_remaining_args(): {:#?}", clp.get_remaining_args());
    println!("remaining_args: {:#?}", remaining_args);
}

#[test]
fn test_positional_args() {
    let mut clp = CommandLineParser::new(None);
    clp.set_parsing_mode(ParsingMode::PositionalArgumentsMode);
    let _ = clp
        .add_string_option('c', "config", false, "file path", "application configuration file")
        .unwrap();
    let _ = clp
        .add_integer_option('V', "verbosity", false, "level", "log verbosity level")
        .unwrap();

    let args = vec![
        "test_get_values".to_string(),
        "--config=config1.properties".to_string(),
        "remaining_args1".to_string(),
        "--config".to_string(),
        "config2.properties".to_string(),
        "remaining_args2".to_string(),
        "--".to_string(),
        "--nocapture".to_string(),
        "--test-threads=1".to_string(),
    ];
    assert_eq!(Ok(()), clp.parse(&args));
    let remaining_args = vec!["remaining_args1".to_string(), "remaining_args2".to_string()];
    assert_eq!(clp.get_remaining_args(), &remaining_args);
    println!("get_remaining_args(): {:#?}", clp.get_remaining_args());
    println!("remaining_args: {:#?}", remaining_args);

    let positional_args = vec!["--nocapture".to_string(), "--test-threads=1".to_string()];
    assert_eq!(clp.get_positional_args(), &positional_args);
    println!("get_positional_args(): {:#?}", clp.get_positional_args());
    println!("positional_args: {:#?}", positional_args);
}
