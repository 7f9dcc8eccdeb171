use vstd::prelude::*;

verus! {

/// The settings stored in the configuration file.
#[derive(Debug, Clone)]
pub struct ConfigFile {
    pub remote_directory_name: String,
    pub local_directory_name: String,
}

/// Where the local tree and the remote store live.
#[derive(Debug, Clone)]
pub struct Config {
    pub remote_directory_name: String,
    pub local_directory_name: String,
}

impl Config {
    /// The settings from the environment: used only when both are set.
    pub fn from_env(local: Option<String>, remote: Option<String>) -> (r: Option<Config>)
        ensures
            r.is_some() <==> (local.is_some() && remote.is_some()),
            r.is_some() ==> r.unwrap().local_directory_name == local.unwrap()
                && r.unwrap().remote_directory_name == remote.unwrap(),
    {
        match (local, remote) {
            (Some(l), Some(r)) => Some(Config { remote_directory_name: r, local_directory_name: l }),
            _ => None,
        }
    }

    /// The settings read from the configuration file.
    pub fn from_file(file: ConfigFile) -> (r: Config)
        ensures
            r.local_directory_name == file.local_directory_name,
            r.remote_directory_name == file.remote_directory_name,
    {
        Config {
            remote_directory_name: file.remote_directory_name,
            local_directory_name: file.local_directory_name,
        }
    }

    pub fn local_directory(&self) -> (r: &String)
        ensures
            r == &self.local_directory_name,
    {
        &self.local_directory_name
    }

    pub fn remote_directory(&self) -> (r: &String)
        ensures
            r == &self.remote_directory_name,
    {
        &self.remote_directory_name
    }
}

} // verus!
