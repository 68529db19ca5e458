//! The registration of a runner with the orchestrator.
//!
//! A runner that connects says first which machine type it serves. Only then
//! does its connection join those that wait for work.
use crate::runner_protocol::{JobResponse, JobResponseType, JobResponseTypeView, JobResponseView};
use vstd::prelude::*;

verus! {

/// Why a connection was not taken as a runner.
#[derive(Debug, Clone, Copy, PartialEq, Eq)]
pub enum RegistrationError {
    /// The first message was not a handshake.
    NotAHandshake,
    /// The connection closed before any message came.
    NoMessage,
}

impl RegistrationError {
    /// The failure in words.
    pub open spec fn spec_message(self) -> Seq<char> {
        match self {
            RegistrationError::NotAHandshake => "Expected handshake but another message was received"@,
            RegistrationError::NoMessage => "Expected handshake but no message was received"@,
        }
    }

    /// The failure in words.
    pub fn message(&self) -> (r: String)
        ensures
            r@ == self.spec_message(),
    {
        match self {
            RegistrationError::NotAHandshake => "Expected handshake but another message was received".to_owned(),
            RegistrationError::NoMessage => "Expected handshake but no message was received".to_owned(),
        }
    }
}

/// The machine type that a first message registers, or why it registers
/// none.
pub open spec fn registered(first: Option<JobResponseView>) -> Result<Seq<char>, RegistrationError> {
    match first {
        Some(response) => match response.ty {
            JobResponseTypeView::Handshake { machine_type } => Ok(machine_type),
            _ => Err(RegistrationError::NotAHandshake),
        },
        None => Err(RegistrationError::NoMessage),
    }
}

/// The first message of a connection, by its view.
pub open spec fn first_view(first: Option<JobResponse>) -> Option<JobResponseView> {
    match first {
        Some(response) => Some(response@),
        None => None,
    }
}

/// Takes the first message of a new connection and gives the machine type of
/// the runner behind it. Anything but a handshake, and no message at all,
/// registers nothing.
pub fn request_job(first: Option<JobResponse>) -> (r: Result<String, RegistrationError>)
    ensures
        match r {
            Ok(machine_type) => registered(first_view(first)) == Ok::<
                Seq<char>,
                RegistrationError,
            >(machine_type@),
            Err(e) => registered(first_view(first)) == Err::<Seq<char>, RegistrationError>(e),
        },
{
    match first {
        Some(response) => match response.ty {
            JobResponseType::Handshake { machine_type } => Ok(machine_type),
            _ => Err(RegistrationError::NotAHandshake),
        },
        None => Err(RegistrationError::NoMessage),
    }
}

} // verus!
