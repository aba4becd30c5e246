use vstd::prelude::*;
use vstd::string::*;

verus! {

/// A failure of a service outside this system.
#[derive(Debug, Clone, PartialEq, Eq)]
pub enum ExternalError {
    OryApiError(String),
    EmailServiceError(String),
    PaymentProviderError(String),
    NetworkTimeout,
    ServiceUnavailable(String),
}

impl ExternalError {
    /// The message of the error.
    pub open spec fn text(self) -> Seq<char> {
        match self {
            ExternalError::OryApiError(msg) => "Ory API error: "@ + msg@,
            ExternalError::EmailServiceError(msg) => "Email service error: "@ + msg@,
            ExternalError::PaymentProviderError(msg) => "Payment provider error: "@ + msg@,
            ExternalError::NetworkTimeout => "Network timeout"@,
            ExternalError::ServiceUnavailable(service) => "Service unavailable: "@ + service@,
        }
    }

    /// Writes the message of the error.
    pub fn message(&self) -> (message: String)
        ensures
            message@ == self.text(),
    {
        match self {
            ExternalError::OryApiError(msg) => String::from_str("Ory API error: ").concat(
                msg.as_str(),
            ),
            ExternalError::EmailServiceError(msg) => String::from_str(
                "Email service error: ",
            ).concat(msg.as_str()),
            ExternalError::PaymentProviderError(msg) => String::from_str(
                "Payment provider error: ",
            ).concat(msg.as_str()),
            ExternalError::NetworkTimeout => String::from_str("Network timeout"),
            ExternalError::ServiceUnavailable(service) => String::from_str(
                "Service unavailable: ",
            ).concat(service.as_str()),
        }
    }
}

} // verus!
