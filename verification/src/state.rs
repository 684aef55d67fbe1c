//! The workspace state: which directory is open, which directory the folder
//! picker showed last, and what must be written to disk after each change.
//!
//! Nothing here reads or writes a file. A change hands back a [`SaveRequest`];
//! whoever owns the disk carries it out and reports a [`SaveOutcome`].

use vstd::prelude::*;
use vstd::string::*;
use crate::error::AppError;
use crate::error::ErrorKind;
use crate::error::ErrorView;
use crate::path::parent;
use crate::path::parent_of;
use crate::text::concat;

verus! {

/// The configuration that persists between runs.
#[derive(Debug, Clone)]
pub struct AppConfig {
    /// The workspace directory that is open, if any.
    pub workspace_dir: Option<String>,
    /// The directory last shown in the folder picker, if any.
    pub last_dialog_dir: Option<String>,
}

impl Default for AppConfig {
    fn default() -> (config: AppConfig)
        ensures
            config == AppConfig::empty(),
    {
        AppConfig { workspace_dir: None, last_dialog_dir: None }
    }
}

/// A copy of an optional path.
fn copy_of(path: &Option<String>) -> (out: Option<String>)
    ensures
        out == *path,
{
    match path {
        Some(p) => Some(p.clone()),
        None => None,
    }
}

impl AppConfig {
    /// The configuration of a first run: nothing open, nothing remembered.
    pub open spec fn empty() -> AppConfig {
        AppConfig { workspace_dir: None, last_dialog_dir: None }
    }

    /// This configuration after `workspace` was opened: it is the workspace and
    /// the directory remembered for the folder picker.
    pub open spec fn opened(self, workspace: String) -> AppConfig {
        AppConfig { workspace_dir: Some(workspace), last_dialog_dir: Some(workspace) }
    }

    /// This configuration after the workspace was closed: the directory
    /// remembered for the folder picker stays.
    pub open spec fn closed(self) -> AppConfig {
        AppConfig { workspace_dir: None, last_dialog_dir: self.last_dialog_dir }
    }

    /// This configuration after the folder picker showed `dir`.
    pub open spec fn remembering(self, dir: String) -> AppConfig {
        AppConfig { workspace_dir: self.workspace_dir, last_dialog_dir: Some(dir) }
    }

    /// A copy of this configuration.
    pub fn duplicate(&self) -> (out: AppConfig)
        ensures
            out == *self,
    {
        AppConfig {
            workspace_dir: copy_of(&self.workspace_dir),
            last_dialog_dir: copy_of(&self.last_dialog_dir),
        }
    }
}

/// What must be written to disk: the whole configuration, to the
/// configuration file, after its directory has been created where it is
/// missing.
#[derive(Debug, Clone)]
pub struct SaveRequest {
    /// The directory that holds the configuration file, where the file's
    /// path has one.
    pub directory: Option<String>,
    /// The configuration file.
    pub path: String,
    /// The configuration to write.
    pub config: AppConfig,
}

/// How carrying out a [`SaveRequest`] ended.
#[derive(Debug, Clone)]
pub enum SaveOutcome {
    /// The file was written.
    Saved,
    /// The directory could not be created.
    DirectoryFailed(String),
    /// The configuration could not be turned into text.
    SerializeFailed(String),
    /// The file could not be written.
    WriteFailed(String),
}

/// What reading the configuration file gave.
#[derive(Debug, Clone)]
pub enum LoadOutcome {
    /// There is no configuration file.
    Missing,
    /// The file is there but could not be read.
    Unreadable(String),
    /// The file was read but does not hold a configuration.
    Malformed(String),
    /// The file held this configuration.
    Loaded(AppConfig),
}

/// The result that a save with the given outcome has.
pub open spec fn save_result(outcome: SaveOutcome) -> Result<(), ErrorView> {
    match outcome {
        SaveOutcome::Saved => Ok(()),
        SaveOutcome::DirectoryFailed(e) => Err(
            ErrorView {
                kind: ErrorKind::IoError,
                message: "Failed to create config directory: "@ + e@,
            },
        ),
        SaveOutcome::SerializeFailed(e) => Err(
            ErrorView { kind: ErrorKind::IoError, message: "Failed to serialize config: "@ + e@ },
        ),
        SaveOutcome::WriteFailed(e) => Err(
            ErrorView { kind: ErrorKind::IoError, message: "Failed to write config file: "@ + e@ },
        ),
    }
}

/// The result that a load has when reading the file gave `found`.
pub open spec fn load_result(found: LoadOutcome) -> Result<(), ErrorView> {
    match found {
        LoadOutcome::Missing => Ok(()),
        LoadOutcome::Unreadable(e) => Err(
            ErrorView { kind: ErrorKind::IoError, message: "Failed to read config file: "@ + e@ },
        ),
        LoadOutcome::Malformed(e) => Err(
            ErrorView { kind: ErrorKind::IoError, message: "Failed to parse config file: "@ + e@ },
        ),
        LoadOutcome::Loaded(_) => Ok(()),
    }
}

/// The configuration in memory after a load that found `found`, where it was
/// `before`: only a configuration that was read replaces it.
pub open spec fn loaded_config(before: AppConfig, found: LoadOutcome) -> AppConfig {
    match found {
        LoadOutcome::Loaded(config) => config,
        _ => before,
    }
}

/// The result of a save whose request ended in `outcome`.
pub fn finish_save(outcome: SaveOutcome) -> (out: Result<(), AppError>)
    ensures
        out is Ok == save_result(outcome) is Ok,
        out is Err ==> save_result(outcome) == Err::<(), ErrorView>(out->Err_0@),
{
    match outcome {
        SaveOutcome::Saved => Ok(()),
        SaveOutcome::DirectoryFailed(e) => Err(
            AppError::IoError(concat("Failed to create config directory: ", e.as_str())),
        ),
        SaveOutcome::SerializeFailed(e) => Err(
            AppError::IoError(concat("Failed to serialize config: ", e.as_str())),
        ),
        SaveOutcome::WriteFailed(e) => Err(
            AppError::IoError(concat("Failed to write config file: ", e.as_str())),
        ),
    }
}

/// The state of the application: the configuration and where it is kept.
#[derive(Debug, Clone)]
pub struct AppState {
    config: AppConfig,
    config_path: String,
}

impl AppState {
    /// The configuration held in memory.
    pub closed spec fn config(&self) -> AppConfig {
        self.config
    }

    /// The location of the configuration file.
    pub closed spec fn location(&self) -> String {
        self.config_path
    }

    /// Whether `request` asks to save this state: the whole configuration, to
    /// the configuration file, in the directory that the file's path names.
    pub open spec fn saves(&self, request: SaveRequest) -> bool {
        &&& request.config == self.config()
        &&& request.path == self.location()
        &&& request.directory is Some == parent_of(self.location()@) is Some
        &&& request.directory is Some ==> request.directory->0@ == parent_of(self.location()@)->0
    }

    /// A state with the configuration of a first run, kept at `config_path`.
    pub fn new(config_path: String) -> (state: AppState)
        ensures
            state.config() == AppConfig::empty(),
            state.location() == config_path,
    {
        AppState { config: AppConfig { workspace_dir: None, last_dialog_dir: None }, config_path }
    }

    /// The location of the configuration file.
    pub fn config_path(&self) -> (path: &str)
        ensures
            path@ == self.location()@,
    {
        self.config_path.as_str()
    }

    /// Takes in what reading the configuration file gave. A missing file
    /// leaves the state as it is and is no error; a file that cannot be read
    /// or does not hold a configuration is an error and leaves the state as it
    /// is; a configuration that was read replaces the one in memory.
    pub fn load(&mut self, found: LoadOutcome) -> (out: Result<(), AppError>)
        ensures
            final(self).location() == old(self).location(),
            final(self).config() == loaded_config(old(self).config(), found),
            out is Ok == load_result(found) is Ok,
            out is Err ==> load_result(found) == Err::<(), ErrorView>(out->Err_0@),
    {
        match found {
            LoadOutcome::Missing => Ok(()),
            LoadOutcome::Unreadable(e) => Err(
                AppError::IoError(concat("Failed to read config file: ", e.as_str())),
            ),
            LoadOutcome::Malformed(e) => Err(
                AppError::IoError(concat("Failed to parse config file: ", e.as_str())),
            ),
            LoadOutcome::Loaded(config) => {
                self.config = config;
                Ok(())
            },
        }
    }

    /// What must be written to disk to save this state.
    pub fn save(&self) -> (request: SaveRequest)
        ensures
            self.saves(request),
    {
        SaveRequest {
            directory: parent(self.config_path.as_str()),
            path: self.config_path.clone(),
            config: self.config.duplicate(),
        }
    }

    /// The workspace directory that is open, if any.
    pub fn get_workspace(&self) -> (workspace: Option<String>)
        ensures
            workspace == self.config().workspace_dir,
    {
        copy_of(&self.config.workspace_dir)
    }

    /// Opens `workspace`: it becomes the workspace and the directory
    /// remembered for the folder picker. Hands back what must be saved.
    pub fn set_workspace(&mut self, workspace: String) -> (request: SaveRequest)
        ensures
            final(self).location() == old(self).location(),
            final(self).config() == old(self).config().opened(workspace),
            final(self).saves(request),
    {
        self.config.last_dialog_dir = Some(workspace.clone());
        self.config.workspace_dir = Some(workspace);
        self.save()
    }

    /// Closes the workspace; the directory remembered for the folder picker
    /// stays. Hands back what must be saved.
    pub fn clear_workspace(&mut self) -> (request: SaveRequest)
        ensures
            final(self).location() == old(self).location(),
            final(self).config() == old(self).config().closed(),
            final(self).saves(request),
    {
        self.config.workspace_dir = None;
        self.save()
    }

    /// The directory last shown in the folder picker, if any.
    pub fn get_last_dialog_dir(&self) -> (dir: Option<String>)
        ensures
            dir == self.config().last_dialog_dir,
    {
        copy_of(&self.config.last_dialog_dir)
    }

    /// Remembers `dir` as the directory last shown in the folder picker; the
    /// workspace stays. Hands back what must be saved.
    pub fn set_last_dialog_dir(&mut self, dir: String) -> (request: SaveRequest)
        ensures
            final(self).location() == old(self).location(),
            final(self).config() == old(self).config().remembering(dir),
            final(self).saves(request),
    {
        self.config.last_dialog_dir = Some(dir);
        self.save()
    }

    /// The whole configuration.
    pub fn get_config(&self) -> (config: AppConfig)
        ensures
            config == self.config(),
    {
        self.config.duplicate()
    }
}

/// How the folder picker ended.
#[derive(Debug, Clone)]
pub enum DialogOutcome {
    /// The picker went away without an answer.
    Closed,
    /// The picker was dismissed without a folder.
    Dismissed,
    /// What was picked is not a path in the file system.
    NotAPath,
    /// This folder was picked.
    Picked(String),
}

/// The error that ends the choice of a workspace, where the folder picker
/// gave no folder.
pub open spec fn dialog_rejection(outcome: DialogOutcome) -> Option<ErrorView> {
    match outcome {
        DialogOutcome::Closed => Some(
            ErrorView { kind: ErrorKind::IoError, message: "Dialog was cancelled or closed"@ },
        ),
        DialogOutcome::Dismissed => Some(
            ErrorView { kind: ErrorKind::InvalidPath, message: "No folder selected"@ },
        ),
        DialogOutcome::NotAPath => Some(
            ErrorView { kind: ErrorKind::InvalidPath, message: "Invalid folder path"@ },
        ),
        DialogOutcome::Picked(_) => None,
    }
}

impl AppState {
    /// Takes in how the folder picker ended. A folder that was picked is
    /// opened as the workspace, and handed back with what must be saved; any
    /// other end is an error and leaves the state as it is.
    pub fn open_picked(&mut self, outcome: DialogOutcome) -> (out: Result<
        (String, SaveRequest),
        AppError,
    >)
        ensures
            final(self).location() == old(self).location(),
            match outcome {
                DialogOutcome::Picked(folder) => {
                    &&& out matches Ok(opened)
                    &&& opened.0 == folder
                    &&& final(self).saves(opened.1)
                    &&& final(self).config() == old(self).config().opened(folder)
                },
                _ => {
                    &&& out matches Err(e)
                    &&& Some(e@) == dialog_rejection(outcome)
                    &&& final(self).config() == old(self).config()
                },
            },
    {
        match outcome {
            DialogOutcome::Closed => Err(
                AppError::IoError("Dialog was cancelled or closed".to_owned()),
            ),
            DialogOutcome::Dismissed => Err(AppError::InvalidPath("No folder selected".to_owned())),
            DialogOutcome::NotAPath => Err(AppError::InvalidPath("Invalid folder path".to_owned())),
            DialogOutcome::Picked(folder) => {
                let request = self.set_workspace(folder.clone());
                Ok((folder, request))
            },
        }
    }
}

/// What was saved after opening a workspace is what a later run finds: a fresh
/// state that loads the saved configuration has that workspace open.
pub proof fn lemma_workspace_survives_restart(
    before: AppState,
    after: AppState,
    request: SaveRequest,
    workspace: String,
    fresh: AppState,
    restarted: AppState,
)
    requires
        after.config() == before.config().opened(workspace),
        after.saves(request),
        fresh.config() == AppConfig::empty(),
        restarted.config() == loaded_config(fresh.config(), LoadOutcome::Loaded(request.config)),
    ensures
        load_result(LoadOutcome::Loaded(request.config)) is Ok,
        restarted.config().workspace_dir == Some(workspace),
        restarted.config().last_dialog_dir == Some(workspace),
{
}

} // verus!
