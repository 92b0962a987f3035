use crate::error::IpcError;
use vstd::prelude::*;
use vstd::string::*;

verus! {

/// What the environment holds for one variable.
#[derive(Clone, Debug)]
pub enum EnvValue {
    /// The variable is set to this value.
    Present(String),
    /// The variable is not set.
    NotPresent,
    /// The variable is set, but not to valid Unicode.
    NotUnicode,
}

/// The value that `v` gives a setting whose default is `default`.
pub open spec fn setting(v: EnvValue, default: Seq<char>) -> Result<Seq<char>, IpcError> {
    match v {
        EnvValue::Present(s) => Ok(s@),
        EnvValue::NotPresent => Ok(default),
        EnvValue::NotUnicode => Err(IpcError::EncodingFailure),
    }
}

/// The consumer's configuration.
#[allow(non_snake_case)]
#[derive(Clone, Debug)]
pub struct Config {
    /// The path to the mailbox directory.
    pub IPC_PATH: String,
    /// The path to the matrix commander program.
    pub MATRIX_PATH: String,
}

impl Config {
    /// The mailbox directory used when none is configured.
    pub open spec fn default_ipc_path() -> Seq<char> {
        "/var/run/sendmatrix"@
    }

    /// The matrix commander used when none is configured.
    pub open spec fn default_matrix_path() -> Seq<char> {
        "/usr/bin/matrix-commander-rs"@
    }

    /// Builds the configuration from the variables `IPC_PATH` and
    /// `MATRIX_PATH` of the environment.
    pub fn from_env(ipc_path: EnvValue, matrix_path: EnvValue) -> (r: Result<Config, IpcError>)
        ensures
            match (setting(ipc_path, Self::default_ipc_path()), setting(matrix_path, Self::default_matrix_path())) {
                (Ok(i), Ok(m)) => r matches Ok(c) && c.IPC_PATH@ == i && c.MATRIX_PATH@ == m,
                (Err(e), _) => r == Err::<Config, IpcError>(e),
                (_, Err(e)) => r == Err::<Config, IpcError>(e),
            },
    {
        let ipc = Self::get_or(ipc_path, "/var/run/sendmatrix")?;
        let matrix = Self::get_or(matrix_path, "/usr/bin/matrix-commander-rs")?;
        Ok(Config { IPC_PATH: ipc, MATRIX_PATH: matrix })
    }

    /// The value of a variable, or `default` where it is not set.
    pub fn get_or(value: EnvValue, default: &str) -> (r: Result<String, IpcError>)
        ensures
            match setting(value, default@) {
                Ok(s) => r matches Ok(t) && t@ == s,
                Err(e) => r == Err::<String, IpcError>(e),
            },
    {
        match value {
            EnvValue::Present(s) => Ok(s),
            EnvValue::NotPresent => Ok(String::from_str(default)),
            EnvValue::NotUnicode => Err(IpcError::EncodingFailure),
        }
    }
}

} // verus!
