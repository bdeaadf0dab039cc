use vstd::prelude::*;

verus! {

/// The failures of the orchestrator. Every one aborts the current command.
#[derive(Debug, Clone, PartialEq, Eq)]
pub enum JinxError {
    /// The operator's home directory could not be determined.
    Environment,
    /// The registry file exists but does not hold a registry.
    RegistryCorrupt,
    /// A descriptor field is malformed; holds the offending entry.
    Config(String),
    /// The runtime reported a failed image build; holds its message.
    Build(String),
    /// The runtime refused to create a network or a service.
    Deploy(String),
    /// A project file could not be read or archived.
    Packaging,
    /// The certificate provisioner failed.
    Certificate(String),
    /// The proxy configuration template could not be rendered.
    Render,
    /// A file of the orchestrator could not be written; holds the reason.
    Storage(String),
}

} // verus!
