use crate::error::ClientError;
use crate::text::opt_text;
use std::path::{Path, PathBuf};
use vstd::prelude::*;

verus! {

/// What the application knows of the account that notes are posted to.
#[derive(Debug)]
pub struct NxCloudNotesConfigData {
    pub server_address: String,
    pub port: u32,
    pub base_notes_directory: String,
    pub user_name: String,
    pub password: Option<String>,
}

/// The configuration as plain values.
pub struct ConfigDataView {
    pub server_address: Seq<char>,
    pub port: u32,
    pub base_notes_directory: Seq<char>,
    pub user_name: Seq<char>,
    pub password: Option<Seq<char>>,
}

impl View for NxCloudNotesConfigData {
    type V = ConfigDataView;

    open spec fn view(&self) -> ConfigDataView {
        ConfigDataView {
            server_address: self.server_address@,
            port: self.port,
            base_notes_directory: self.base_notes_directory@,
            user_name: self.user_name@,
            password: opt_text(self.password),
        }
    }
}

/// `std::path::Path`, a file path that is borrowed. Nothing is said of what
/// it holds.
#[verifier::external_type_specification]
#[verifier::external_body]
pub struct ExPath(Path);

/// `std::path::PathBuf`, a file path that is owned. Nothing is said of what
/// it holds.
#[verifier::external_type_specification]
#[verifier::external_body]
pub struct ExPathBuf(PathBuf);

/// Where the configuration is kept, whatever the place.
pub trait NxCloudConfigRetriever {
    fn has_config(&self) -> Result<bool, ClientError>;

    fn load_config(&self) -> Result<NxCloudNotesConfigData, ClientError>;

    fn create_new_config(&self, config: NxCloudNotesConfigData) -> Result<bool, ClientError>;
}

/// The place of a configuration that is stored on disk: a file in a
/// directory.
pub struct FileSystemNxCloudConfig<'a> {
    config_directory: &'a Path,
    config_name: &'a str,
    /// PathBuf where the config file is stored. This will probably different for each operating system.
    pub config_path: PathBuf,
}

/// Calls `std::path::Path::join`. How two paths are joined differs from one
/// platform to the next, so nothing is said of the result.
#[verifier::external_body]
fn join_path(directory: &Path, name: &str) -> (joined: PathBuf) {
    directory.join(name)
}

impl<'a> FileSystemNxCloudConfig<'a> {
    /// The directory that holds the file.
    pub closed spec fn directory(&self) -> &'a Path {
        self.config_directory
    }

    /// The name of the file in its directory.
    pub closed spec fn name(&self) -> Seq<char> {
        self.config_name@
    }

    pub fn new(config_directory: &'a Path, config_name: &'a str) -> (store: Self)
        ensures
            store.directory() == config_directory,
            store.name() == config_name@,
    {
        Self { config_directory, config_name, config_path: join_path(config_directory, config_name) }
    }

    /// The directory that holds the file.
    pub fn config_directory(&self) -> (directory: &'a Path)
        ensures
            directory == self.directory(),
    {
        self.config_directory
    }

    /// The name of the file in its directory.
    pub fn config_name(&self) -> (name: &'a str)
        ensures
            name@ == self.name(),
    {
        self.config_name
    }
}

} // verus!
