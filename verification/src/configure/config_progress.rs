//! The events that report the progress of a configuration, per resource.

use vstd::prelude::*;

verus! {

/// A resource of the configuration has started.
#[derive(Debug)]
pub struct ConfigurationResourceStartedEvent {
    pub resource: String,
    pub parent: Option<String>,
}

/// How a resource of the configuration completed.
#[derive(Debug, Clone, Copy, PartialEq, Eq, Structural)]
pub enum ConfigurationResourceCompletionStatus {
    Success,
    Failure,
}

/// A resource of the configuration has completed.
#[derive(Debug)]
pub struct ConfigurationResourceCompletedEvent {
    pub resource: String,
    pub parent: Option<String>,
    pub status: ConfigurationResourceCompletionStatus,
    pub errors: Option<Vec<String>>,
}

} // verus!
