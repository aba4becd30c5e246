use vstd::prelude::*;
use vstd::string::*;

verus! {

/// What can be wrong with the configuration found in the environment.
#[derive(Debug, Clone, PartialEq, Eq)]
pub enum ConfigError {
    MissingDatabaseUrl,
    MissingKratosApiKey,
    InvalidServerPort(String),
}

impl ConfigError {
    /// The message of the error.
    pub open spec fn text(self) -> Seq<char> {
        match self {
            ConfigError::MissingDatabaseUrl => {
                "DATABASE_URL environment variable is required and cannot be empty"@
            },
            ConfigError::MissingKratosApiKey => {
                "KRATOS_API_KEY environment variable is required and cannot be empty"@
            },
            ConfigError::InvalidServerPort(port) => "SERVER_PORT '"@ + port@
                + "' is not a valid port number"@,
        }
    }

    /// Writes the message of the error.
    pub fn message(&self) -> (message: String)
        ensures
            message@ == self.text(),
    {
        match self {
            ConfigError::MissingDatabaseUrl => String::from_str(
                "DATABASE_URL environment variable is required and cannot be empty",
            ),
            ConfigError::MissingKratosApiKey => String::from_str(
                "KRATOS_API_KEY environment variable is required and cannot be empty",
            ),
            ConfigError::InvalidServerPort(port) => {
                let mut message = String::from_str("SERVER_PORT '");
                message.append(port.as_str());
                message.append("' is not a valid port number");
                message
            },
        }
    }
}

} // verus!
