use vstd::prelude::*;

verus! {

/// Errors that the application can report.
#[derive(Debug, Clone, PartialEq, Eq)]
pub enum Error {
    Tui(TuiErrorKind),
    LocalFileCorrupted(String),
    FailedToFetchRemote,
    LoadingLocalFiles(LoadingLocalFiles),
    LocalSyncFailed,
    RemoteSyncFailed,
    /// A push was asked for a file that exists only in the remote store.
    NothingToPush,
    /// A pull was asked for a file that exists only locally.
    NothingToPull,
    FailedToCreateDefaultDirectory,
    InitializeLogging,
    SetupWizard(SetupWizardErrorKind),
    ConfigFileMissing,
    ConfigFileCorrupted,
}

#[derive(Debug, Clone, PartialEq, Eq)]
pub enum SetupWizardErrorKind {
    Prompt,
    BucketCreation,
    LocalDirectoryCreation(String),
    ConfigFile(ConfigFileErrorKind),
    HomeDirectory,
}

#[derive(Debug, Clone, PartialEq, Eq)]
pub enum ConfigFileErrorKind {
    Directory(String),
    FileCreation(String),
    FileWrite(String),
}

#[derive(Debug, Clone, Copy, PartialEq, Eq, Structural)]
pub enum TuiErrorKind {
    Initilization,
    TerminalRestoration,
    Drawing,
    KeyboardEvent,
}

#[derive(Debug, Clone, Copy, PartialEq, Eq, Structural)]
pub enum LoadingLocalFiles {
    FileSystem,
}

} // verus!
