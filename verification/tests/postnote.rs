use nxcloudnotes::cliarguments::PostNoteCLIConfig;
use nxcloudnotes::configprovider::{FileSystemNxCloudConfig, NxCloudNotesConfigData};
use nxcloudnotes::error::{ClientError, ConfigErrorKind, NetworkErrorKind};
use nxcloudnotes::postnote::{exit_code, prepare_post_note, NoteUpload};
use nxcloudnotes::text::{decimal_text, parse_u32, text_eq};
use std::path::{Path, PathBuf};

fn config(password: Option<&str>) -> NxCloudNotesConfigData {
    NxCloudNotesConfigData {
        server_address: "cloud.example".to_string(),
        port: 443,
        base_notes_directory: "Notes".to_string(),
        user_name: "alice".to_string(),
        password: password.map(|p| p.to_string()),
    }
}

fn cli(title: Option<&str>, password: Option<&str>) -> PostNoteCLIConfig {
    PostNoteCLIConfig {
        password: password.map(|p| p.to_string()),
        title: title.map(|t| t.to_string()),
        content: "hi".to_string(),
    }
}

fn upload(password: &str, note_path: &str) -> NoteUpload {
    NoteUpload {
        server_address: "cloud.example".to_string(),
        port: 443,
        user_name: "alice".to_string(),
        password: password.to_string(),
        note_path: note_path.to_string(),
        content: "hi".to_string(),
    }
}

#[test]
fn title_default() {
    let planned = prepare_post_note(config(Some("stored")), cli(None, None), 1700000000000);
    assert_eq!(planned, Ok(upload("stored", "/Notes/1700000000000.txt")));
    assert!(planned.unwrap().note_path.ends_with("/1700000000000.txt"));
}

#[test]
fn a_given_title_names_the_note() {
    assert_eq!(
        prepare_post_note(config(Some("stored")), cli(Some("shopping list"), None), 5),
        Ok(upload("stored", "/Notes/shopping list.txt"))
    );
    assert_eq!(
        prepare_post_note(config(Some("stored")), cli(Some(""), None), 5),
        Ok(upload("stored", "/Notes/.txt"))
    );
}

#[test]
fn auth_precedence() {
    assert_eq!(
        prepare_post_note(config(Some("stored")), cli(Some("t"), Some("OVR")), 0),
        Ok(upload("stored", "/Notes/t.txt"))
    );
    assert_eq!(
        prepare_post_note(config(None), cli(Some("t"), Some("OVR")), 0),
        Ok(upload("OVR", "/Notes/t.txt"))
    );
}

#[test]
fn no_password_is_a_config_error() {
    assert_eq!(
        prepare_post_note(config(None), cli(Some("t"), None), 0),
        Err(ClientError::ConfigError(ConfigErrorKind::MissingPassword))
    );
}

#[test]
fn numbers_are_written_in_decimal() {
    assert_eq!(decimal_text(0), "0");
    assert_eq!(decimal_text(7), "7");
    assert_eq!(decimal_text(10), "10");
    assert_eq!(decimal_text(1234567890), "1234567890");
    assert_eq!(decimal_text(1700000000000), "1700000000000");
    assert_eq!(decimal_text(u128::MAX), "340282366920938463463374607431768211455");
}

#[test]
fn port_numbers_are_read() {
    assert_eq!(parse_u32("443"), Some(443));
    assert_eq!(parse_u32("0"), Some(0));
    assert_eq!(parse_u32("+443"), Some(443));
    assert_eq!(parse_u32("00443"), Some(443));
    assert_eq!(parse_u32("4294967295"), Some(4294967295));
    assert_eq!(parse_u32("4294967296"), None);
    assert_eq!(parse_u32("99999999999999999999999999"), None);
    assert_eq!(parse_u32("99999999999999999999999999x"), None);
    assert_eq!(parse_u32(""), None);
    assert_eq!(parse_u32("+"), None);
    assert_eq!(parse_u32("-1"), None);
    assert_eq!(parse_u32("++1"), None);
    assert_eq!(parse_u32("1+"), None);
    assert_eq!(parse_u32(" 1"), None);
    assert_eq!(parse_u32("1 "), None);
    assert_eq!(parse_u32("12a"), None);
    assert_eq!(parse_u32("invalidPort"), None);
    assert_eq!(parse_u32("\u{663}"), None);
    for text in ["443", "+443", "00443", "4294967296", "", "+", "-1", "12a", " 1"] {
        assert_eq!(parse_u32(text), text.parse::<u32>().ok(), "{:?}", text);
    }
}

#[test]
fn texts_are_compared_character_for_character() {
    assert!(text_eq("help", "help"));
    assert!(text_eq("", ""));
    assert!(!text_eq("help", "Help"));
    assert!(!text_eq("help", "hel"));
    assert!(!text_eq("help", "helps"));
}

#[test]
fn errors_tell_the_user_what_happened() {
    assert_eq!(
        ClientError::UploadFailed { status: 401, body: "no auth".to_string() }.message(),
        "Reponse code 401 indicates failure uploading file:\r\nno auth"
    );
    assert_eq!(
        ClientError::ConfigError(ConfigErrorKind::MissingPassword).message(),
        "You must provide a password with the -p argument if none is present in the applications config file"
    );
    assert_eq!(
        ClientError::ConfigError(ConfigErrorKind::Store).message(),
        "An error occurred retrieving user config"
    );
    assert_eq!(
        ClientError::ConfigError(ConfigErrorKind::Format).message(),
        "User config is not valid"
    );
    assert_eq!(
        ClientError::NetworkError(NetworkErrorKind::Connect).message(),
        "Unable to connect to given host"
    );
    assert_eq!(
        ClientError::NetworkError(NetworkErrorKind::Resolve).message(),
        "Unable to resolve given host"
    );
    assert_eq!(
        ClientError::NetworkError(NetworkErrorKind::Io).message(),
        "Connection to given host was lost"
    );
    assert_eq!(
        ClientError::TlsError.message(),
        "Unable to set up a secure connection to given host"
    );
    assert_eq!(ClientError::ProtocolError.message(), "Response of given host is malformed");
}

#[test]
fn the_config_file_lies_in_its_directory() {
    let directory = Path::new("some").join("where");
    let store = FileSystemNxCloudConfig::new(&directory, "app-config.toml");
    let expected: PathBuf = directory.join("app-config.toml");
    assert_eq!(store.config_path, expected);
    assert_eq!(store.config_directory(), directory.as_path());
    assert_eq!(store.config_name(), "app-config.toml");
}

#[test]
fn exit_code_is_zero_on_success_only() {
    assert_eq!(exit_code(&Ok("File uploaded successfully")), 0);
    assert_eq!(exit_code(&Err(ClientError::ProtocolError)), 1);
    assert_eq!(
        exit_code(&Err(ClientError::UploadFailed { status: 200, body: String::new() })),
        1
    );
}
