use vstd::prelude::*;

verus! {

/// Every way a request can fail.
pub enum ServiceError {
    /// The lock around the presence registry could not be taken.
    Lock,
    /// The daemon could not be reached, or a command failed; carries the cause.
    Daemon(String),
    /// The daemon has no output under the name that marks playback as shared.
    Configuration,
    /// The listener identity in the request is not a well-formed identifier;
    /// carries the cause.
    MalformedRequest(String),
}

/// The HTTP status that every failure is answered with.
pub const FAILURE_STATUS: u16 = 500;

impl ServiceError {
    /// The human-readable cause of the failure.
    pub open spec fn cause(&self) -> Seq<char> {
        match self {
            ServiceError::Lock => "unlocking state for .listeners"@,
            ServiceError::Daemon(m) => m@,
            ServiceError::Configuration => "the daemon has no output named listenwithme"@,
            ServiceError::MalformedRequest(m) => m@,
        }
    }

    /// The human-readable cause of the failure.
    pub fn message(&self) -> (r: String)
        ensures
            r@ == self.cause(),
    {
        match self {
            ServiceError::Lock => "unlocking state for .listeners".to_owned(),
            ServiceError::Daemon(m) => m.clone(),
            ServiceError::Configuration => "the daemon has no output named listenwithme".to_owned(),
            ServiceError::MalformedRequest(m) => m.clone(),
        }
    }

    /// The HTTP status of the reply: the same for every failure.
    pub fn status_code(&self) -> (r: u16)
        ensures
            r == FAILURE_STATUS,
    {
        FAILURE_STATUS
    }

    /// The plain-text body of the reply: a fixed lead-in, then the cause.
    pub fn response_body(&self) -> (r: String)
        ensures
            r@ == "Something went wrong: "@ + self.cause(),
    {
        let lead = "Something went wrong: ".to_owned();
        let cause = self.message();
        lead.concat(cause.as_str())
    }
}

} // verus!
