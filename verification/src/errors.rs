//! Error taxonomy for container operations. Every variant carries the subject
//! it is about, so a failure can be reported verbatim.
use vstd::prelude::*;

verus! {

/// Everything that can go wrong before or while driving the engine.
#[derive(Debug)]
pub enum ContainerError {
    /// The engine binary is not available.
    EngineNotFound(String),
    /// A named container is missing from the configuration.
    ContainerNotFound(String),
    /// A required image is not present.
    ImageNotFound(String),
    /// The engine reported a failed image build.
    BuildFailed(String),
    /// An engine command returned a non-zero status.
    CommandFailed(String),
    /// No build input file could be located.
    DockerfileNotFound(String),
    /// The declarative configuration file is missing.
    ConfigNotFound(String),
    /// The declarative configuration is present but malformed.
    ConfigInvalid(String),
    /// Persisted lock data exists but cannot be parsed; never treated as an
    /// absent record.
    LockfileCorrupt(String),
}

/// The user-facing message of each failure class.
pub open spec fn error_message(e: ContainerError) -> Seq<char> {
    match e {
        ContainerError::EngineNotFound(s) => "Container engine '"@ + s@ + "' not found"@,
        ContainerError::ContainerNotFound(s) => "Container '"@ + s@ + "' not found"@,
        ContainerError::ImageNotFound(s) => "Image '"@ + s@ + "' not found"@,
        ContainerError::BuildFailed(s) => "Failed to build image: "@ + s@,
        ContainerError::CommandFailed(s) => "Command execution failed: "@ + s@,
        ContainerError::DockerfileNotFound(s) => "Dockerfile not found at '"@ + s@ + "'"@,
        ContainerError::ConfigNotFound(s) => "Configuration file not found: "@ + s@,
        ContainerError::ConfigInvalid(s) => "Invalid configuration: "@ + s@,
        ContainerError::LockfileCorrupt(s) => "Corrupt lockfile: "@ + s@,
    }
}

impl ContainerError {
    /// Renders the message for this failure.
    pub fn message(&self) -> (r: String)
        ensures
            r@ == error_message(*self),
    {
        let mut out = String::new();
        match self {
            ContainerError::EngineNotFound(s) => {
                out.append("Container engine '");
                out.append(s.as_str());
                out.append("' not found");
            },
            ContainerError::ContainerNotFound(s) => {
                out.append("Container '");
                out.append(s.as_str());
                out.append("' not found");
            },
            ContainerError::ImageNotFound(s) => {
                out.append("Image '");
                out.append(s.as_str());
                out.append("' not found");
            },
            ContainerError::BuildFailed(s) => {
                out.append("Failed to build image: ");
                out.append(s.as_str());
            },
            ContainerError::CommandFailed(s) => {
                out.append("Command execution failed: ");
                out.append(s.as_str());
            },
            ContainerError::DockerfileNotFound(s) => {
                out.append("Dockerfile not found at '");
                out.append(s.as_str());
                out.append("'");
            },
            ContainerError::ConfigNotFound(s) => {
                out.append("Configuration file not found: ");
                out.append(s.as_str());
            },
            ContainerError::ConfigInvalid(s) => {
                out.append("Invalid configuration: ");
                out.append(s.as_str());
            },
            ContainerError::LockfileCorrupt(s) => {
                out.append("Corrupt lockfile: ");
                out.append(s.as_str());
            },
        }
        proof {
            assert(out@ =~= error_message(*self));
        }
        out
    }
}

} // verus!
