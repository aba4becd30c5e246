pub mod config;
pub mod database;
pub mod external;
pub mod organisation;
pub mod project;
pub mod user;

pub use config::ConfigError;
pub use database::{DatabaseError, DbFailure};
pub use external::ExternalError;
pub use organisation::OrganisationError;
pub use project::ProjectError;
pub use user::UserError;

use vstd::prelude::*;
use vstd::std_specs::convert::FromSpecImpl;
use vstd::string::*;

verus! {

/// The kinds of failure that a caller of this library can tell apart.
#[derive(Clone, Copy, Debug, PartialEq, Eq, Structural)]
pub enum ErrorKind {
    /// The input has a bad shape or value.
    Validation,
    /// The entity asked for does not exist.
    NotFound,
    /// The request collides with what exists, such as a second membership of one principal.
    Conflict,
    /// The principal is known but its role does not suffice.
    Forbidden,
    /// The principal or the shared secret is missing or wrong.
    Unauthorized,
    /// The request would break a rule that the data must always obey.
    InvariantViolation,
    /// The persistent store failed.
    PersistenceFailure,
    /// Anything else.
    Internal,
}

/// Every failure that the library reports.
#[derive(Debug, Clone, PartialEq, Eq)]
pub enum AppError {
    Project(ProjectError),
    User(UserError),
    Organisation(OrganisationError),
    Database(DatabaseError),
    External(ExternalError),
    Config(ConfigError),
    Unauthorized(String),
    Forbidden(String),
    NotFound(String),
    Conflict(String),
    Internal(String),
}

/// A JSON value is carried through and never looked into.
#[verifier::external_type_specification]
#[verifier::external_body]
pub struct ExJsonValue(serde_json::Value);

/// The body of the response that reports a failure to a client.
#[derive(Debug, Clone, PartialEq, Eq)]
pub struct ErrorResponse {
    /// A stable code that a program can match on.
    pub error: String,
    /// A text for a human reader.
    pub message: String,
    pub details: Option<serde_json::Value>,
}

/// The response that reports a failure to a client: the HTTP status and the body.
#[derive(Debug, Clone, PartialEq, Eq)]
pub struct ErrorReply {
    pub status: u16,
    pub body: ErrorResponse,
}

impl ProjectError {
    /// The kind of the failure.
    pub open spec fn kind(self) -> ErrorKind {
        match self {
            ProjectError::InvalidSlug(_) => ErrorKind::Validation,
            ProjectError::SlugAlreadyExists(_) => ErrorKind::Conflict,
            ProjectError::ProjectNotFound(_) => ErrorKind::NotFound,
            ProjectError::CannotArchivePublicProject => ErrorKind::InvariantViolation,
            ProjectError::OwnerCannotLeaveProject => ErrorKind::InvariantViolation,
            ProjectError::ProjectLimitExceeded { .. } => ErrorKind::InvariantViolation,
            ProjectError::InvalidName => ErrorKind::Validation,
            ProjectError::OwnerNotMember(_) => ErrorKind::InvariantViolation,
        }
    }

    /// Executable form of [`ProjectError::kind`].
    pub fn error_kind(&self) -> (kind: ErrorKind)
        ensures
            kind == self.kind(),
    {
        match self {
            ProjectError::InvalidSlug(_) => ErrorKind::Validation,
            ProjectError::SlugAlreadyExists(_) => ErrorKind::Conflict,
            ProjectError::ProjectNotFound(_) => ErrorKind::NotFound,
            ProjectError::CannotArchivePublicProject => ErrorKind::InvariantViolation,
            ProjectError::OwnerCannotLeaveProject => ErrorKind::InvariantViolation,
            ProjectError::ProjectLimitExceeded { .. } => ErrorKind::InvariantViolation,
            ProjectError::InvalidName => ErrorKind::Validation,
            ProjectError::OwnerNotMember(_) => ErrorKind::InvariantViolation,
        }
    }
}

impl UserError {
    /// The kind of the failure.
    pub open spec fn kind(self) -> ErrorKind {
        match self {
            UserError::UserNotFound(_) => ErrorKind::NotFound,
            UserError::EmailAlreadyExists(_) => ErrorKind::Conflict,
            UserError::AccountDeactivated => ErrorKind::Forbidden,
            UserError::InsufficientPermissions => ErrorKind::Forbidden,
        }
    }

    /// Executable form of [`UserError::kind`].
    pub fn error_kind(&self) -> (kind: ErrorKind)
        ensures
            kind == self.kind(),
    {
        match self {
            UserError::UserNotFound(_) => ErrorKind::NotFound,
            UserError::EmailAlreadyExists(_) => ErrorKind::Conflict,
            UserError::AccountDeactivated => ErrorKind::Forbidden,
            UserError::InsufficientPermissions => ErrorKind::Forbidden,
        }
    }
}

impl OrganisationError {
    /// The kind of the failure.
    pub open spec fn kind(self) -> ErrorKind {
        match self {
            OrganisationError::OrganisationNotFound(_) => ErrorKind::NotFound,
            OrganisationError::UserNotMember(_) => ErrorKind::Forbidden,
            OrganisationError::InsufficientRole { .. } => ErrorKind::Forbidden,
            OrganisationError::CannotRemoveLastOwner => ErrorKind::InvariantViolation,
            OrganisationError::InvalidName => ErrorKind::Validation,
            OrganisationError::MembershipNotFound(_) => ErrorKind::NotFound,
            OrganisationError::AlreadyMember(_) => ErrorKind::Conflict,
        }
    }

    /// Executable form of [`OrganisationError::kind`].
    pub fn error_kind(&self) -> (kind: ErrorKind)
        ensures
            kind == self.kind(),
    {
        match self {
            OrganisationError::OrganisationNotFound(_) => ErrorKind::NotFound,
            OrganisationError::UserNotMember(_) => ErrorKind::Forbidden,
            OrganisationError::InsufficientRole { .. } => ErrorKind::Forbidden,
            OrganisationError::CannotRemoveLastOwner => ErrorKind::InvariantViolation,
            OrganisationError::InvalidName => ErrorKind::Validation,
            OrganisationError::MembershipNotFound(_) => ErrorKind::NotFound,
            OrganisationError::AlreadyMember(_) => ErrorKind::Conflict,
        }
    }
}

impl ErrorKind {
    /// The HTTP status that reports a failure of this kind.
    pub open spec fn status(self) -> u16 {
        match self {
            ErrorKind::Validation => 400,
            ErrorKind::NotFound => 404,
            ErrorKind::Conflict => 409,
            ErrorKind::Forbidden => 403,
            ErrorKind::Unauthorized => 401,
            ErrorKind::InvariantViolation => 400,
            ErrorKind::PersistenceFailure => 500,
            ErrorKind::Internal => 500,
        }
    }

    /// The stable code that reports a failure of this kind. A request that would break a
    /// rule of the data is reported under the code of an invalid request.
    pub open spec fn code(self) -> Seq<char> {
        match self {
            ErrorKind::Validation => "validation_error"@,
            ErrorKind::NotFound => "not_found"@,
            ErrorKind::Conflict => "conflict"@,
            ErrorKind::Forbidden => "forbidden"@,
            ErrorKind::Unauthorized => "unauthorized"@,
            ErrorKind::InvariantViolation => "validation_error"@,
            ErrorKind::PersistenceFailure => "internal_error"@,
            ErrorKind::Internal => "internal_error"@,
        }
    }

    /// Whether a client may be shown the failure's own message. The messages of the other
    /// kinds may hold details of the store or of the machine.
    pub open spec fn is_public(self) -> bool {
        self != ErrorKind::PersistenceFailure && self != ErrorKind::Internal
    }

    /// Executable form of [`ErrorKind::status`].
    pub fn http_status(self) -> (status: u16)
        ensures
            status == self.status(),
            400 <= status < 600,
            self.is_public() <==> status < 500,
    {
        match self {
            ErrorKind::Validation => 400,
            ErrorKind::NotFound => 404,
            ErrorKind::Conflict => 409,
            ErrorKind::Forbidden => 403,
            ErrorKind::Unauthorized => 401,
            ErrorKind::InvariantViolation => 400,
            ErrorKind::PersistenceFailure => 500,
            ErrorKind::Internal => 500,
        }
    }

    /// Executable form of [`ErrorKind::code`].
    pub fn code_string(self) -> (code: String)
        ensures
            code@ == self.code(),
    {
        match self {
            ErrorKind::Validation => String::from_str("validation_error"),
            ErrorKind::NotFound => String::from_str("not_found"),
            ErrorKind::Conflict => String::from_str("conflict"),
            ErrorKind::Forbidden => String::from_str("forbidden"),
            ErrorKind::Unauthorized => String::from_str("unauthorized"),
            ErrorKind::InvariantViolation => String::from_str("validation_error"),
            ErrorKind::PersistenceFailure => String::from_str("internal_error"),
            ErrorKind::Internal => String::from_str("internal_error"),
        }
    }
}

impl AppError {
    /// The kind of the failure.
    pub open spec fn kind(self) -> ErrorKind {
        match self {
            AppError::Project(err) => err.kind(),
            AppError::User(err) => err.kind(),
            AppError::Organisation(err) => err.kind(),
            AppError::Database(_) => ErrorKind::PersistenceFailure,
            AppError::External(_) => ErrorKind::Internal,
            AppError::Config(_) => ErrorKind::Internal,
            AppError::Unauthorized(_) => ErrorKind::Unauthorized,
            AppError::Forbidden(_) => ErrorKind::Forbidden,
            AppError::NotFound(_) => ErrorKind::NotFound,
            AppError::Conflict(_) => ErrorKind::Conflict,
            AppError::Internal(_) => ErrorKind::Internal,
        }
    }

    /// The message of the error: what it says of itself, after the name of its group.
    pub open spec fn text(self) -> Seq<char> {
        match self {
            AppError::Project(err) => "Project error: "@ + err.text(),
            AppError::User(err) => "User error: "@ + err.text(),
            AppError::Organisation(err) => "Organisation error: "@ + err.text(),
            AppError::Database(err) => "Database error: "@ + err.text(),
            AppError::External(err) => "External error: "@ + err.text(),
            AppError::Config(err) => "Config error: "@ + err.text(),
            AppError::Unauthorized(msg) => "Unauthorized: "@ + msg@,
            AppError::Forbidden(msg) => "Forbidden: "@ + msg@,
            AppError::NotFound(msg) => "Not found: "@ + msg@,
            AppError::Conflict(msg) => "Conflict: "@ + msg@,
            AppError::Internal(msg) => "Internal error: "@ + msg@,
        }
    }

    /// The code under which a client is told of the failure.
    pub open spec fn response_code(self) -> Seq<char> {
        match self {
            AppError::Config(_) => "configuration_error"@,
            _ => self.kind().code(),
        }
    }

    /// The text that a client is shown. A failure of the store, of an outside service, of
    /// the configuration or of the program itself is reported by a fixed sentence; a rule of
    /// the domain by the error's whole message; the five general failures by what they carry.
    pub open spec fn response_message(self) -> Seq<char> {
        match self {
            AppError::Project(_) | AppError::User(_) | AppError::Organisation(_) => self.text(),
            AppError::Database(_) | AppError::External(_) | AppError::Internal(_) =>
                "An internal error occurred"@,
            AppError::Config(_) => "Service configuration error"@,
            AppError::Unauthorized(msg) => msg@,
            AppError::Forbidden(msg) => msg@,
            AppError::NotFound(msg) => msg@,
            AppError::Conflict(msg) => msg@,
        }
    }

    /// Executable form of [`AppError::kind`].
    pub fn error_kind(&self) -> (kind: ErrorKind)
        ensures
            kind == self.kind(),
    {
        match self {
            AppError::Project(err) => err.error_kind(),
            AppError::User(err) => err.error_kind(),
            AppError::Organisation(err) => err.error_kind(),
            AppError::Database(_) => ErrorKind::PersistenceFailure,
            AppError::External(_) => ErrorKind::Internal,
            AppError::Config(_) => ErrorKind::Internal,
            AppError::Unauthorized(_) => ErrorKind::Unauthorized,
            AppError::Forbidden(_) => ErrorKind::Forbidden,
            AppError::NotFound(_) => ErrorKind::NotFound,
            AppError::Conflict(_) => ErrorKind::Conflict,
            AppError::Internal(_) => ErrorKind::Internal,
        }
    }

    /// Writes the message of the error.
    pub fn message(&self) -> (message: String)
        ensures
            message@ == self.text(),
    {
        match self {
            AppError::Project(err) => String::from_str("Project error: ").concat(
                err.message().as_str(),
            ),
            AppError::User(err) => String::from_str("User error: ").concat(
                err.message().as_str(),
            ),
            AppError::Organisation(err) => String::from_str("Organisation error: ").concat(
                err.message().as_str(),
            ),
            AppError::Database(err) => String::from_str("Database error: ").concat(
                err.message().as_str(),
            ),
            AppError::External(err) => String::from_str("External error: ").concat(
                err.message().as_str(),
            ),
            AppError::Config(err) => String::from_str("Config error: ").concat(
                err.message().as_str(),
            ),
            AppError::Unauthorized(msg) => String::from_str("Unauthorized: ").concat(
                msg.as_str(),
            ),
            AppError::Forbidden(msg) => String::from_str("Forbidden: ").concat(msg.as_str()),
            AppError::NotFound(msg) => String::from_str("Not found: ").concat(msg.as_str()),
            AppError::Conflict(msg) => String::from_str("Conflict: ").concat(msg.as_str()),
            AppError::Internal(msg) => String::from_str("Internal error: ").concat(msg.as_str()),
        }
    }

    /// The response that reports the error to a client.
    ///
    /// The status and the code follow from the error's kind (a failure of the configuration
    /// has a code of its own). The text of a failure that is not public is never shown.
    pub fn error_response(&self) -> (reply: ErrorReply)
        ensures
            reply.status == self.kind().status(),
            reply.body.error@ == self.response_code(),
            reply.body.message@ == self.response_message(),
            reply.body.details is None,
            !self.kind().is_public() ==> reply.body.message@ == "An internal error occurred"@
                || reply.body.message@ == "Service configuration error"@,
    {
        let kind = self.error_kind();
        let status = kind.http_status();
        let (error, message) = match self {
            AppError::Project(_) | AppError::User(_) | AppError::Organisation(_) => (
                kind.code_string(),
                self.message(),
            ),
            AppError::Database(_) | AppError::External(_) | AppError::Internal(_) => (
                kind.code_string(),
                String::from_str("An internal error occurred"),
            ),
            AppError::Config(_) => (
                String::from_str("configuration_error"),
                String::from_str("Service configuration error"),
            ),
            AppError::Unauthorized(msg) => (kind.code_string(), msg.clone()),
            AppError::Forbidden(msg) => (kind.code_string(), msg.clone()),
            AppError::NotFound(msg) => (kind.code_string(), msg.clone()),
            AppError::Conflict(msg) => (kind.code_string(), msg.clone()),
        };
        ErrorReply { status, body: ErrorResponse { error, message, details: None } }
    }

    /// The error that stands for a failure reported by the store's driver: a missing row is
    /// a `NotFound`, a connection that could not be had a `ConnectionFailed`, anything else
    /// a `QueryFailed`, each with the driver's description.
    pub fn from_db_failure(failure: DbFailure) -> (err: AppError)
        ensures
            match failure {
                DbFailure::RecordNotFound => err matches AppError::NotFound(msg) && msg@
                    == "Record not found"@,
                DbFailure::ConnectionAcquire(text) => err == AppError::Database(
                    DatabaseError::ConnectionFailed(text),
                ),
                DbFailure::Other(text) => err == AppError::Database(
                    DatabaseError::QueryFailed(text),
                ),
            },
    {
        match failure {
            DbFailure::RecordNotFound => AppError::NotFound(String::from_str("Record not found")),
            DbFailure::ConnectionAcquire(text) => AppError::Database(
                DatabaseError::ConnectionFailed(text),
            ),
            DbFailure::Other(text) => AppError::Database(DatabaseError::QueryFailed(text)),
        }
    }
}

impl From<ProjectError> for AppError {
    fn from(err: ProjectError) -> (app: AppError) {
        AppError::Project(err)
    }
}

impl FromSpecImpl<ProjectError> for AppError {
    open spec fn obeys_from_spec() -> bool {
        true
    }

    open spec fn from_spec(err: ProjectError) -> AppError {
        AppError::Project(err)
    }
}

impl From<ConfigError> for AppError {
    fn from(err: ConfigError) -> (app: AppError) {
        AppError::Config(err)
    }
}

impl FromSpecImpl<ConfigError> for AppError {
    open spec fn obeys_from_spec() -> bool {
        true
    }

    open spec fn from_spec(err: ConfigError) -> AppError {
        AppError::Config(err)
    }
}

} // verus!
