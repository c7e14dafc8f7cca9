use crate::configprovider::{ConfigDataView, NxCloudNotesConfigData};
use crate::text::{parse_u32, parsed_u32};
use crate::utils::{accepted_input, get_user_input, prompt, prompt_text};
use vstd::prelude::*;

verus! {

/// The fields of the configuration, in the order in which the user is asked
/// for them.
#[derive(Clone, Copy, Debug, PartialEq, Eq, Structural)]
pub enum ConfigField {
    ServerAddress,
    Port,
    NotesDirectory,
    UserName,
    Password,
}

/// Where the dialog with the user stands: the field that is asked for now,
/// and the answers given so far.
pub struct ConfigDialog {
    field: ConfigField,
    server_address: String,
    port: u32,
    base_notes_directory: String,
    user_name: String,
}

/// A dialog as plain values.
pub struct ConfigDialogView {
    pub field: ConfigField,
    pub server_address: Seq<char>,
    pub port: u32,
    pub base_notes_directory: Seq<char>,
    pub user_name: Seq<char>,
}

/// What follows an answer: the dialog goes on, or the configuration is
/// complete.
pub enum DialogStep {
    Ask(ConfigDialog),
    Done(NxCloudNotesConfigData),
}

/// A step as plain values.
pub enum DialogStepView {
    Ask(ConfigDialogView),
    Done(ConfigDataView),
}

impl View for ConfigDialog {
    type V = ConfigDialogView;

    closed spec fn view(&self) -> ConfigDialogView {
        ConfigDialogView {
            field: self.field,
            server_address: self.server_address@,
            port: self.port,
            base_notes_directory: self.base_notes_directory@,
            user_name: self.user_name@,
        }
    }
}

impl View for DialogStep {
    type V = DialogStepView;

    open spec fn view(&self) -> DialogStepView {
        match self {
            DialogStep::Ask(dialog) => DialogStepView::Ask(dialog@),
            DialogStep::Done(config) => DialogStepView::Done(config@),
        }
    }
}

/// The dialog before the first question.
pub open spec fn initial_dialog() -> ConfigDialogView {
    ConfigDialogView {
        field: ConfigField::ServerAddress,
        server_address: Seq::empty(),
        port: 0,
        base_notes_directory: Seq::empty(),
        user_name: Seq::empty(),
    }
}

/// Every field but the password has to be given.
pub open spec fn field_is_required(field: ConfigField) -> bool {
    !(field is Password)
}

/// The request that is shown for a field.
pub open spec fn field_request(field: ConfigField) -> Seq<char> {
    match field {
        ConfigField::ServerAddress => "Enter server address WITH the port (ie nextcloud.myserver.net:443):"@,
        ConfigField::Port => "Enter port number: "@,
        ConfigField::NotesDirectory => "Enter notes directory, this must exist on your NextCloud account:"@,
        ConfigField::UserName => "Enter your username:"@,
        ConfigField::Password => "Enter your password:"@,
    }
}

/// The dialog after one line of input.
///
/// A required field that was left empty is asked for again, and so is a port
/// that is no unsigned 32-bit numeral. Any other answer is stored and the
/// next field is asked for. The answer to the last question, the password,
/// completes the configuration; an empty one means that no password is
/// stored.
pub open spec fn dialog_step(dialog: ConfigDialogView, line: Seq<char>) -> DialogStepView {
    match accepted_input(line, field_is_required(dialog.field)) {
        None => DialogStepView::Ask(dialog),
        Some(answer) => match dialog.field {
            ConfigField::ServerAddress => DialogStepView::Ask(
                ConfigDialogView { field: ConfigField::Port, server_address: answer, ..dialog },
            ),
            ConfigField::Port => match parsed_u32(answer) {
                Some(port) => DialogStepView::Ask(
                    ConfigDialogView { field: ConfigField::NotesDirectory, port: port, ..dialog },
                ),
                None => DialogStepView::Ask(dialog),
            },
            ConfigField::NotesDirectory => DialogStepView::Ask(
                ConfigDialogView {
                    field: ConfigField::UserName,
                    base_notes_directory: answer,
                    ..dialog
                },
            ),
            ConfigField::UserName => DialogStepView::Ask(
                ConfigDialogView { field: ConfigField::Password, user_name: answer, ..dialog },
            ),
            ConfigField::Password => DialogStepView::Done(
                ConfigDataView {
                    server_address: dialog.server_address,
                    port: dialog.port,
                    base_notes_directory: dialog.base_notes_directory,
                    user_name: dialog.user_name,
                    password: if answer.len() == 0 {
                        None
                    } else {
                        Some(answer)
                    },
                },
            ),
        },
    }
}

impl ConfigDialog {
    /// A dialog that starts with the first field.
    pub fn new() -> (dialog: Self)
        ensures
            dialog@ == initial_dialog(),
    {
        ConfigDialog {
            field: ConfigField::ServerAddress,
            server_address: String::new(),
            port: 0,
            base_notes_directory: String::new(),
            user_name: String::new(),
        }
    }

    /// The field that is asked for now.
    pub fn field(&self) -> (field: ConfigField)
        ensures
            field == self@.field,
    {
        self.field
    }

    /// Whether the field that is asked for now has to be given.
    pub fn is_required(&self) -> (required: bool)
        ensures
            required == field_is_required(self@.field),
    {
        match self.field {
            ConfigField::Password => false,
            _ => true,
        }
    }

    /// The request to show for the field that is asked for now.
    pub fn request_msg(&self) -> (msg: &'static str)
        ensures
            msg@ == field_request(self@.field),
    {
        match self.field {
            ConfigField::ServerAddress => "Enter server address WITH the port (ie nextcloud.myserver.net:443):",
            ConfigField::Port => "Enter port number: ",
            ConfigField::NotesDirectory => "Enter notes directory, this must exist on your NextCloud account:",
            ConfigField::UserName => "Enter your username:",
            ConfigField::Password => "Enter your password:",
        }
    }

    /// The whole prompt to write before the next line is read.
    pub fn prompt(&self) -> (text: String)
        ensures
            text@ == prompt_text(field_request(self@.field), field_is_required(self@.field)),
    {
        prompt(self.request_msg(), self.is_required())
    }
}

/// Takes the line that the user gave in answer to the dialog's prompt and
/// says how the dialog goes on.
pub fn ask_user_for_config(dialog: ConfigDialog, line: String) -> (step: DialogStep)
    ensures
        step@ == dialog_step(dialog@, line@),
{
    let required: bool = dialog.is_required();
    match get_user_input(line, required) {
        None => DialogStep::Ask(dialog),
        Some(answer) => match dialog.field {
            ConfigField::ServerAddress => DialogStep::Ask(
                ConfigDialog { field: ConfigField::Port, server_address: answer, ..dialog },
            ),
            ConfigField::Port => match parse_u32(answer.as_str()) {
                Some(port) => DialogStep::Ask(
                    ConfigDialog { field: ConfigField::NotesDirectory, port, ..dialog },
                ),
                None => DialogStep::Ask(dialog),
            },
            ConfigField::NotesDirectory => DialogStep::Ask(
                ConfigDialog { field: ConfigField::UserName, base_notes_directory: answer, ..dialog },
            ),
            ConfigField::UserName => DialogStep::Ask(
                ConfigDialog { field: ConfigField::Password, user_name: answer, ..dialog },
            ),
            ConfigField::Password => {
                let password: Option<String> = if answer.as_str().is_empty() {
                    None
                } else {
                    Some(answer)
                };
                DialogStep::Done(
                    NxCloudNotesConfigData {
                        server_address: dialog.server_address,
                        port: dialog.port,
                        base_notes_directory: dialog.base_notes_directory,
                        user_name: dialog.user_name,
                        password,
                    },
                )
            },
        },
    }
}

} // verus!
