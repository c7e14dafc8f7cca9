use nxcloudnotes::cliarguments::{
    parse_args, parse_flags_to_post_note_cli_config, Arg, ArgIter, PostNoteCLIConfig,
    ProgramCommands, USAGE,
};

fn parse_slice(args: &[&'static str]) -> Result<ProgramCommands, String> {
    let argv = args.iter().map(|s| String::from(*s)).collect();
    parse_args(argv)
}

#[test]
fn should_parse_help_command_correctly() {
    let help_command = Ok(ProgramCommands::Help(USAGE));
    assert_eq!(parse_slice(&["nxcloudnotes", "help"]), help_command);
    assert_eq!(
        parse_slice(&["nxcloudnotes", "test", "bar", "help", "-ttestparams"]),
        help_command
    );
    assert_eq!(parse_slice(&["nxcloudnotes", "-t\"testparams\"", "help"]), help_command)
}

#[test]
fn should_parse_config_path_command_correctly() {
    let config_path_command = Ok(ProgramCommands::ConfigPath);
    assert_eq!(parse_slice(&["nxcloudnotes", "config-path"]), config_path_command);
    assert_eq!(
        parse_slice(&["nxcloudnotes", "test", "bar", "config-path", "-ttestparams"]),
        config_path_command
    );
    assert_eq!(
        parse_slice(&["nxcloudnotes", "-ttestparams", "config-path"]),
        config_path_command
    )
}

#[test]
fn should_parse_post_note_command_correctly() {
    let post_note_command = Ok(ProgramCommands::PostNote(PostNoteCLIConfig {
        password: None,
        title: None,
        content: "note content here".to_string(),
    }));
    assert_eq!(parse_slice(&["nxcloudnotes", "note content here"]), post_note_command);
}

#[test]
fn should_parse_post_note_command_with_flags() {
    let post_note_command = Ok(ProgramCommands::PostNote(PostNoteCLIConfig {
        password: Some("password".to_string()),
        title: Some("title".to_string()),
        content: String::from("note content here"),
    }));
    assert_eq!(
        parse_slice(&["nxcloudnotes", "note content here", "-ttitle", "-ppassword"]),
        post_note_command
    );
    assert_eq!(
        parse_slice(&["nxcloudnotes", "-ttitle", "-ppassword", "note content here"]),
        post_note_command
    );
}

#[test]
fn no_arguments_show_the_usage() {
    assert_eq!(parse_slice(&["nxcloudnotes"]), Ok(ProgramCommands::Help(USAGE)));
    assert_eq!(parse_slice(&[]), Ok(ProgramCommands::Help(USAGE)));
    assert_eq!(parse_slice(&["nxcloudnotes", "-ttitle"]), Ok(ProgramCommands::Help(USAGE)));
}

#[test]
fn usage_names_the_commands() {
    assert!(USAGE.starts_with("\nnxcloudnotes -- A NextCloud CLI dumping tool.\n"));
    assert!(USAGE.contains("  nxcloudnotes config-path\n"));
    assert!(USAGE.contains("  nxcloudnotes -p\"NxCloudPassword\" \"NOTES BODY\"\n"));
}

#[test]
fn the_last_plain_word_decides() {
    assert_eq!(
        parse_slice(&["nxcloudnotes", "help", "config-path", "a note"]),
        Ok(ProgramCommands::PostNote(PostNoteCLIConfig {
            password: None,
            title: None,
            content: "a note".to_string(),
        }))
    );
    assert_eq!(
        parse_slice(&["nxcloudnotes", "a note", "help"]),
        Ok(ProgramCommands::Help(USAGE))
    );
}

#[test]
fn the_last_value_of_a_flag_wins() {
    assert_eq!(
        parse_slice(&["nxcloudnotes", "-tfirst", "note", "-psecret", "-tsecond", "-xother"]),
        Ok(ProgramCommands::PostNote(PostNoteCLIConfig {
            password: Some("secret".to_string()),
            title: Some("second".to_string()),
            content: "note".to_string(),
        }))
    );
}

#[test]
fn a_flag_without_a_value_is_a_plain_word() {
    assert_eq!(
        parse_slice(&["nxcloudnotes", "-t"]),
        Ok(ProgramCommands::PostNote(PostNoteCLIConfig {
            password: None,
            title: None,
            content: "-t".to_string(),
        }))
    );
    assert_eq!(
        parse_slice(&["nxcloudnotes", "-"]),
        Ok(ProgramCommands::PostNote(PostNoteCLIConfig {
            password: None,
            title: None,
            content: "-".to_string(),
        }))
    );
    assert_eq!(
        parse_slice(&["nxcloudnotes", ""]),
        Ok(ProgramCommands::PostNote(PostNoteCLIConfig {
            password: None,
            title: None,
            content: "".to_string(),
        }))
    );
}

#[test]
fn arg_iter_reads_flags_and_words() {
    let mut args = ArgIter::new(vec![
        "-tMy title".to_string(),
        "word".to_string(),
        "-p".to_string(),
        "-\u{e9}t\u{e9}".to_string(),
        "-\u{e9}".to_string(),
    ]);
    match args.next() {
        Some(Arg::Short(flag, value)) => {
            assert_eq!(flag, "t");
            assert_eq!(value, "My title");
        }
        _ => panic!("a flag with its value was expected"),
    }
    match args.next() {
        Some(Arg::Plain(word)) => assert_eq!(word, "word"),
        _ => panic!("a plain word was expected"),
    }
    match args.next() {
        Some(Arg::Plain(word)) => assert_eq!(word, "-p"),
        _ => panic!("a plain word was expected"),
    }
    match args.next() {
        Some(Arg::Short(flag, value)) => {
            assert_eq!(flag, "\u{e9}");
            assert_eq!(value, "t\u{e9}");
        }
        _ => panic!("a flag with its value was expected"),
    }
    match args.next() {
        Some(Arg::Plain(word)) => assert_eq!(word, "-\u{e9}"),
        _ => panic!("a plain word was expected"),
    }
    assert!(args.next().is_none());
    assert!(args.next().is_none());
}

#[test]
fn arg_as_ref_and_as_text() {
    let flag = Arg::Short("t".to_string(), "title".to_string());
    match flag.flag_as_ref() {
        Arg::Short(name, value) => {
            assert_eq!(name, "t");
            assert_eq!(value, "title");
        }
        Arg::Plain(_) => panic!("a flag was expected"),
    }
    assert_eq!(flag.to_text(), "-t");
    let word = Arg::Plain("help".to_string());
    match word.flag_as_ref() {
        Arg::Plain(name) => assert_eq!(name, "help"),
        Arg::Short(_, _) => panic!("a plain word was expected"),
    }
    assert_eq!(word.to_text(), "help");
}

#[test]
fn flags_are_joined_to_the_content() {
    let flags = vec![
        ("p".to_string(), "one".to_string()),
        ("t".to_string(), "two".to_string()),
        ("p".to_string(), "three".to_string()),
        ("T".to_string(), "four".to_string()),
    ];
    assert_eq!(
        parse_flags_to_post_note_cli_config(flags, "content".to_string()),
        PostNoteCLIConfig {
            password: Some("three".to_string()),
            title: Some("two".to_string()),
            content: "content".to_string(),
        }
    );
    assert_eq!(
        parse_flags_to_post_note_cli_config(Vec::new(), "content".to_string()),
        PostNoteCLIConfig { password: None, title: None, content: "content".to_string() }
    );
}
