use crate::cliarguments::{PostNoteCLIConfig, PostNoteView};
use crate::configprovider::{ConfigDataView, NxCloudNotesConfigData};
use crate::error::{ClientError, ClientErrorView, ConfigErrorKind};
use crate::text::{decimal, decimal_text};
use vstd::prelude::*;

verus! {

/// All that is needed to post one note: where to, as whom, and what.
#[derive(Debug, PartialEq)]
pub struct NoteUpload {
    pub server_address: String,
    pub port: u32,
    pub user_name: String,
    pub password: String,
    pub note_path: String,
    pub content: String,
}

/// An upload as plain values.
pub struct NoteUploadView {
    pub server_address: Seq<char>,
    pub port: u32,
    pub user_name: Seq<char>,
    pub password: Seq<char>,
    pub note_path: Seq<char>,
    pub content: Seq<char>,
}

impl View for NoteUpload {
    type V = NoteUploadView;

    open spec fn view(&self) -> NoteUploadView {
        NoteUploadView {
            server_address: self.server_address@,
            port: self.port,
            user_name: self.user_name@,
            password: self.password@,
            note_path: self.note_path@,
            content: self.content@,
        }
    }
}

/// The password to log in with: the stored one, and only where none is
/// stored the one from the command line.
pub open spec fn chosen_password(stored: Option<Seq<char>>, given: Option<Seq<char>>) -> Option<
    Seq<char>,
> {
    match stored {
        Some(password) => Some(password),
        None => given,
    }
}

/// The title of the note: the one from the command line, or else the time in
/// milliseconds since the epoch, as a decimal numeral.
pub open spec fn note_title(given: Option<Seq<char>>, millis_since_epoch: nat) -> Seq<char> {
    match given {
        Some(title) => title,
        None => decimal(millis_since_epoch),
    }
}

/// The path of the note on the server: a text file in the notes directory.
pub open spec fn note_path(directory: Seq<char>, title: Seq<char>) -> Seq<char> {
    "/"@ + directory + "/"@ + title + ".txt"@
}

/// The upload that the configuration and the command line ask for. There is
/// none without a password.
pub open spec fn planned_upload(
    config: ConfigDataView,
    cli: PostNoteView,
    millis_since_epoch: nat,
) -> Option<NoteUploadView> {
    match chosen_password(config.password, cli.password) {
        None => None,
        Some(password) => Some(
            NoteUploadView {
                server_address: config.server_address,
                port: config.port,
                user_name: config.user_name,
                password: password,
                note_path: note_path(
                    config.base_notes_directory,
                    note_title(cli.title, millis_since_epoch),
                ),
                content: cli.content,
            },
        ),
    }
}

/// Works out what to upload for a note, from the stored configuration, the
/// command line and the time. Fails where no password is to be had.
pub fn prepare_post_note(
    config_data: NxCloudNotesConfigData,
    cli_config: PostNoteCLIConfig,
    millis_since_epoch: u128,
) -> (result: Result<NoteUpload, ClientError>)
    ensures
        match result {
            Ok(upload) => planned_upload(config_data@, cli_config@, millis_since_epoch as nat)
                == Some(upload@),
            Err(error) => planned_upload(config_data@, cli_config@, millis_since_epoch as nat)
                is None && error@ == ClientErrorView::ConfigError(
                ConfigErrorKind::MissingPassword,
            ),
        },
{
    let password: String = match config_data.password {
        Some(password_string) => password_string,
        None => match cli_config.password {
            Some(password_string) => password_string,
            None => {
                return Err(ClientError::ConfigError(ConfigErrorKind::MissingPassword));
            },
        },
    };

    let title: String = match cli_config.title {
        Some(title_string) => title_string,
        None => decimal_text(millis_since_epoch),
    };
    let mut note_path: String = String::from_str("/");
    note_path.append(config_data.base_notes_directory.as_str());
    note_path.append("/");
    note_path.append(title.as_str());
    note_path.append(".txt");
    Ok(
        NoteUpload {
            server_address: config_data.server_address,
            port: config_data.port,
            user_name: config_data.user_name,
            password,
            note_path,
            content: cli_config.content,
        },
    )
}

/// The exit code of the program after an upload: 0 where it succeeded, 1
/// where it did not.
pub fn exit_code(result: &Result<&str, ClientError>) -> (code: i32)
    ensures
        code == if result is Ok {
            0i32
        } else {
            1i32
        },
{
    match result {
        Ok(_) => 0,
        Err(_) => 1,
    }
}

} // verus!
