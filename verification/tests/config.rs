use snake_camel::{Command, Config, Error};

fn words(args: &[&str]) -> Vec<String> {
    args.iter().map(|w| w.to_string()).collect()
}

#[test]
fn command_is_read_whatever_the_case() {
    for word in ["uscc", "USCC", "Uscc", "uScC", "usCC"] {
        assert_eq!(Command::new(word), Ok(Command::USCC), "{:?}", word);
    }
    for word in ["ccus", "CCUS", "Ccus", "cCuS"] {
        assert_eq!(Command::new(word), Ok(Command::CCUS), "{:?}", word);
    }
}

#[test]
fn command_is_refused_when_unknown() {
    for word in ["", "u", "usc", "usccc", "ccu", "ccuss", "uscc\n", " uscc", "us_cc", "сcus", "ſcc", "uſcc"] {
        assert_eq!(Command::new(word), Err(Error::UnknownCommand), "{:?}", word);
    }
}

#[test]
fn command_folds_ascii_letters_only() {
    // U+212A, the Kelvin sign, is no ASCII letter, whatever its lower case.
    assert_eq!(Command::new("u\u{212A}cc"), Err(Error::UnknownCommand));
    assert_eq!(Command::new("ｕscc"), Err(Error::UnknownCommand));
}

#[test]
fn config_needs_a_command() {
    assert_eq!(Config::new(&[]), Err(Error::NotEnoughArguments));
}

#[test]
fn config_passes_the_unknown_command_on() {
    assert_eq!(Config::new(&words(&["nope"])), Err(Error::UnknownCommand));
    assert_eq!(Config::new(&words(&["", "a", "b"])), Err(Error::UnknownCommand));
}

#[test]
fn config_has_default_files() {
    let config = Config::new(&words(&["uscc"])).unwrap();
    assert_eq!(config.command, Command::USCC);
    assert_eq!(config.inp_file, "in.txt");
    assert_eq!(config.out_file, "out.txt");

    let config = Config::new(&words(&["CCUS"])).unwrap();
    assert_eq!(config.command, Command::CCUS);
    assert_eq!(config.inp_file, "in.txt");
    assert_eq!(config.out_file, "out.txt");
}

#[test]
fn config_takes_the_input_file() {
    let config = Config::new(&words(&["uscc", "names.txt"])).unwrap();
    assert_eq!(
        config,
        Config {
            command: Command::USCC,
            inp_file: "names.txt".to_string(),
            out_file: "out.txt".to_string(),
        }
    );
}

#[test]
fn config_takes_both_files() {
    let config = Config::new(&words(&["ccus", "a", "b"])).unwrap();
    assert_eq!(
        config,
        Config { command: Command::CCUS, inp_file: "a".to_string(), out_file: "b".to_string() }
    );
}

#[test]
fn config_ignores_further_arguments() {
    let config = Config::new(&words(&["uscc", "a", "b", "c", "d"])).unwrap();
    assert_eq!(
        config,
        Config { command: Command::USCC, inp_file: "a".to_string(), out_file: "b".to_string() }
    );
}

#[test]
fn config_takes_empty_file_names_as_they_are() {
    let config = Config::new(&words(&["uscc", "", ""])).unwrap();
    assert_eq!(config.inp_file, "");
    assert_eq!(config.out_file, "");
}

#[test]
fn error_messages() {
    assert_eq!(Error::NotEnoughArguments.message(), "Not enough arguments");
    assert_eq!(Error::UnknownCommand.message(), "Unknown command");
    assert_eq!(
        Error::InputReadFailure { cause: "it is gone".to_string() }.message(),
        "Unable to read file : it is gone"
    );
    assert_eq!(
        Error::OutputWriteFailure { path: "o.txt".to_string(), cause: "no room".to_string() }
            .message(),
        "Error while writing output file: o.txt, err: no room"
    );
    assert_eq!(
        Error::OutputWriteFailure { path: String::new(), cause: String::new() }.message(),
        "Error while writing output file: , err: "
    );
}
