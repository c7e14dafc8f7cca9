use nxcloudnotes::configcreator::{ask_user_for_config, ConfigDialog, ConfigField, DialogStep};
use nxcloudnotes::configprovider::NxCloudNotesConfigData;
use nxcloudnotes::utils::{get_user_input, prompt, trim_newline_characters};
use std::io::{BufRead, Cursor, Write};

/// Runs the dialog on a reader and a writer, as the application does on the
/// terminal.
fn run_dialog<R, W>(reader: &mut R, writer: &mut W) -> NxCloudNotesConfigData
where
    R: BufRead,
    W: Write,
{
    let mut dialog = ConfigDialog::new();
    loop {
        writer.write_all(dialog.prompt().as_bytes()).expect("Error writing prompt");
        let mut line = String::new();
        reader.read_line(&mut line).expect("Error reading input");
        match ask_user_for_config(dialog, line) {
            DialogStep::Ask(next) => dialog = next,
            DialogStep::Done(config) => return config,
        }
    }
}

#[test]
fn should_parse_input_to_correct_config() {
    let input = Cursor::new("Test.storage.net\n443\nNotes\nTest User\nTestpassword\n".as_bytes());

    assert_config_is_correct(
        input,
        "Test.storage.net",
        443,
        "Notes",
        "Test User",
        Some("Testpassword"),
    )
}

#[test]
fn should_parse_input_to_correct_config_with_carriage_returns() {
    let input = Cursor::new(
        "Test.storage.net\r\n443\r\nNotes\r\nTest User\r\nTestpassword\r\n".as_bytes(),
    );

    assert_config_is_correct(
        input,
        "Test.storage.net",
        443,
        "Notes",
        "Test User",
        Some("Testpassword"),
    )
}

#[test]
fn should_parse_input_to_config_with_none_password() {
    let input = Cursor::new("Test.storage.net\n443\nNotes\nTest User\n".as_bytes());

    assert_config_is_correct(input, "Test.storage.net", 443, "Notes", "Test User", None)
}

#[test]
fn should_handle_incorrect_port_input() {
    // should handle the 'invalidPort' input and discard it, but parse 443 correctly
    let input =
        Cursor::new("Test.storage.net\ninvalidPort\n443\nNotes\nTest User\n".as_bytes());

    assert_config_is_correct(input, "Test.storage.net", 443, "Notes", "Test User", None)
}

fn assert_config_is_correct(
    mut input: Cursor<&[u8]>,
    expected_server_address: &str,
    expected_port: u32,
    expected_base_notes_directory: &str,
    expected_user_name: &str,
    expected_password: Option<&str>,
) {
    let mut output = Vec::new();

    let actual_config = run_dialog(&mut input, &mut output);

    assert_eq!(&actual_config.server_address, expected_server_address);
    assert_eq!(actual_config.port, expected_port);
    assert_eq!(&actual_config.base_notes_directory, expected_base_notes_directory);
    assert_eq!(&actual_config.user_name, expected_user_name);

    match expected_password {
        Some(expected_password_str) => {
            assert_eq!(&actual_config.password.unwrap(), expected_password_str);
        }
        None => {
            assert!(&actual_config.password.is_none());
        }
    }
}

#[test]
fn the_dialog_writes_its_prompts() {
    let mut input = Cursor::new("host\n\nbad\n8080\nNotes\nme\n\n".as_bytes());
    let mut output = Vec::new();
    let config = run_dialog(&mut input, &mut output);
    assert_eq!(config.server_address, "host");
    assert_eq!(config.port, 8080);
    assert_eq!(config.password, None);
    let expected = "\r\nREQUIRED: Enter server address WITH the port (ie nextcloud.myserver.net:443):\n\
\r\nREQUIRED: Enter port number: \n\
\r\nREQUIRED: Enter port number: \n\
\r\nREQUIRED: Enter port number: \n\
\r\nREQUIRED: Enter notes directory, this must exist on your NextCloud account:\n\
\r\nREQUIRED: Enter your username:\n\
\r\nOPTIONAL: Enter your password:\n";
    assert_eq!(String::from_utf8(output).unwrap(), expected);
}

#[test]
fn the_dialog_goes_field_by_field() {
    let dialog = ConfigDialog::new();
    assert_eq!(dialog.field(), ConfigField::ServerAddress);
    assert!(dialog.is_required());
    assert_eq!(
        dialog.request_msg(),
        "Enter server address WITH the port (ie nextcloud.myserver.net:443):"
    );
    let dialog = match ask_user_for_config(dialog, "\n".to_string()) {
        DialogStep::Ask(next) => next,
        DialogStep::Done(_) => panic!("the dialog ended early"),
    };
    assert_eq!(dialog.field(), ConfigField::ServerAddress);
    let dialog = match ask_user_for_config(dialog, "cloud.example\r\n".to_string()) {
        DialogStep::Ask(next) => next,
        DialogStep::Done(_) => panic!("the dialog ended early"),
    };
    assert_eq!(dialog.field(), ConfigField::Port);
    assert_eq!(dialog.request_msg(), "Enter port number: ");
    let dialog = match ask_user_for_config(dialog, "4294967296\n".to_string()) {
        DialogStep::Ask(next) => next,
        DialogStep::Done(_) => panic!("the dialog ended early"),
    };
    assert_eq!(dialog.field(), ConfigField::Port);
    let dialog = match ask_user_for_config(dialog, "+4294967295\n".to_string()) {
        DialogStep::Ask(next) => next,
        DialogStep::Done(_) => panic!("the dialog ended early"),
    };
    assert_eq!(dialog.field(), ConfigField::NotesDirectory);
    assert_eq!(
        dialog.request_msg(),
        "Enter notes directory, this must exist on your NextCloud account:"
    );
    let dialog = match ask_user_for_config(dialog, "Notes".to_string()) {
        DialogStep::Ask(next) => next,
        DialogStep::Done(_) => panic!("the dialog ended early"),
    };
    assert_eq!(dialog.field(), ConfigField::UserName);
    assert_eq!(dialog.request_msg(), "Enter your username:");
    let dialog = match ask_user_for_config(dialog, "alice\n".to_string()) {
        DialogStep::Ask(next) => next,
        DialogStep::Done(_) => panic!("the dialog ended early"),
    };
    assert_eq!(dialog.field(), ConfigField::Password);
    assert!(!dialog.is_required());
    assert_eq!(dialog.request_msg(), "Enter your password:");
    assert_eq!(dialog.prompt(), "\r\nOPTIONAL: Enter your password:\n");
    match ask_user_for_config(dialog, "s3cret\n".to_string()) {
        DialogStep::Done(config) => {
            assert_eq!(config.server_address, "cloud.example");
            assert_eq!(config.port, 4294967295);
            assert_eq!(config.base_notes_directory, "Notes");
            assert_eq!(config.user_name, "alice");
            assert_eq!(config.password, Some("s3cret".to_string()));
        }
        DialogStep::Ask(_) => panic!("the dialog did not end"),
    }
}

#[test]
fn get_user_input_trims_and_asks_again() {
    assert_eq!(get_user_input("value\n".to_string(), true), Some("value".to_string()));
    assert_eq!(get_user_input("value\r\n".to_string(), true), Some("value".to_string()));
    assert_eq!(get_user_input("value".to_string(), true), Some("value".to_string()));
    assert_eq!(get_user_input("\n".to_string(), true), None);
    assert_eq!(get_user_input("\r\n".to_string(), true), None);
    assert_eq!(get_user_input("".to_string(), true), None);
    assert_eq!(get_user_input("".to_string(), false), Some("".to_string()));
    assert_eq!(get_user_input("\r\n".to_string(), false), Some("".to_string()));
    assert_eq!(get_user_input(" \n".to_string(), true), Some(" ".to_string()));
}

#[test]
fn trim_newline_characters_takes_one_line_ending() {
    let cases = [
        ("abc\n", "abc"),
        ("abc\r\n", "abc"),
        ("abc\r", "abc\r"),
        ("abc\n\n", "abc\n"),
        ("abc\r\r\n", "abc\r"),
        ("abc\n\r", "abc\n\r"),
        ("\n", ""),
        ("\r\n", ""),
        ("", ""),
        ("gr\u{fc}n\r\n", "gr\u{fc}n"),
    ];
    for (line, expected) in cases {
        let mut s = line.to_string();
        trim_newline_characters(&mut s);
        assert_eq!(s, expected);
    }
}

#[test]
fn prompt_names_the_kind_of_field() {
    assert_eq!(prompt("Enter your username:", true), "\r\nREQUIRED: Enter your username:\n");
    assert_eq!(prompt("Enter your password:", false), "\r\nOPTIONAL: Enter your password:\n");
}
