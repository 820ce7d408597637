use vstd::prelude::*;

verus! {

/// The failure kinds surfaced by the runtime and its managers.
/// Each variant carries a human-readable message.
#[derive(Debug, Clone)]
pub enum TurbineError {
    ConfigError(String),
    ContainerError(String),
    NetworkError(String),
    FilesystemError(String),
    ProcessError(String),
    SecurityError(String),
    RuntimeError(String),
    IoError(String),
    SerdeError(String),
}

impl TurbineError {
    /// The message carried by this error, whatever its kind.
    pub fn message(&self) -> (r: String)
        ensures
            r@ == self.spec_message(),
    {
        match self {
            TurbineError::ConfigError(m) => m.clone(),
            TurbineError::ContainerError(m) => m.clone(),
            TurbineError::NetworkError(m) => m.clone(),
            TurbineError::FilesystemError(m) => m.clone(),
            TurbineError::ProcessError(m) => m.clone(),
            TurbineError::SecurityError(m) => m.clone(),
            TurbineError::RuntimeError(m) => m.clone(),
            TurbineError::IoError(m) => m.clone(),
            TurbineError::SerdeError(m) => m.clone(),
        }
    }

    pub open spec fn spec_message(&self) -> Seq<char> {
        match self {
            TurbineError::ConfigError(m) => m@,
            TurbineError::ContainerError(m) => m@,
            TurbineError::NetworkError(m) => m@,
            TurbineError::FilesystemError(m) => m@,
            TurbineError::ProcessError(m) => m@,
            TurbineError::SecurityError(m) => m@,
            TurbineError::RuntimeError(m) => m@,
            TurbineError::IoError(m) => m@,
            TurbineError::SerdeError(m) => m@,
        }
    }
}

} // verus!
