//! The relay controller's states and outcomes, and the status token the
//! session reports for each state. The pin driving itself lives with the
//! hardware glue.
use vstd::prelude::*;

verus! {

/// Whether the relay is driven on or off.
#[derive(Debug, Clone, Copy, PartialEq, Eq, Structural)]
pub enum ControllerState {
    ON,
    OFF,
}

/// Failure modes of driving the relay.
#[derive(Debug, Clone, Copy, PartialEq, Eq, Structural)]
pub enum RelayControllerError {
    StartError,
    StopError,
}

/// Outcomes of driving the relay.
#[derive(Debug, Clone, Copy, PartialEq, Eq, Structural)]
pub enum RelaySuccess {
    StartSuccess,
    StopSuccess,
}

impl ControllerState {
    /// The three-character status token reported over the broker.
    pub open spec fn status_str(self) -> Seq<char> {
        match self {
            ControllerState::ON => "STR"@,
            ControllerState::OFF => "STP"@,
        }
    }

    pub fn status(&self) -> (r: &'static str)
        ensures
            r@ == self.status_str(),
    {
        match self {
            ControllerState::ON => "STR",
            ControllerState::OFF => "STP",
        }
    }
}

impl RelayControllerError {
    /// What went wrong, in words.
    pub open spec fn message_str(self) -> Seq<char> {
        match self {
            RelayControllerError::StartError => "Failed to start the relay controller"@,
            RelayControllerError::StopError => "Failed to stop the relay controller"@,
        }
    }

    pub fn message(&self) -> (r: &'static str)
        ensures
            r@ == self.message_str(),
    {
        match self {
            RelayControllerError::StartError => "Failed to start the relay controller",
            RelayControllerError::StopError => "Failed to stop the relay controller",
        }
    }
}

} // verus!
