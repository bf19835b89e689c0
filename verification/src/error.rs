//! The errors that the API answers with, and their HTTP status codes.
use vstd::prelude::*;

verus! {

/// One failed validation rule: the field it concerns and the rule's code.
#[derive(Debug)]
pub struct FieldError {
    pub field: String,
    pub code: String,
}

impl View for FieldError {
    type V = (Seq<char>, Seq<char>);

    open spec fn view(&self) -> (Seq<char>, Seq<char>) {
        (self.field@, self.code@)
    }
}

/// The views of a list of field errors.
pub open spec fn error_views(errors: Seq<FieldError>) -> Seq<(Seq<char>, Seq<char>)> {
    errors.map_values(|e: FieldError| e@)
}

/// A failed request, as the API reports it.
#[derive(Debug)]
pub enum ApiError {
    /// The request body broke validation rules.
    ValidationErrors(Vec<FieldError>),
    /// The request carries no valid credentials.
    UnauthorizedError,
    /// The resource belongs to another user.
    ForbiddenError,
    /// The resource does not exist.
    NotFoundError,
    /// The resource exists already.
    ConflictError,
    /// Something failed inside the server; the text describes it.
    InternalServerError(String),
}

impl ApiError {
    /// The HTTP status code that answers the error.
    pub open spec fn status(&self) -> u16 {
        match self {
            ApiError::ValidationErrors(_) => 400,
            ApiError::UnauthorizedError => 401,
            ApiError::ForbiddenError => 403,
            ApiError::NotFoundError => 404,
            ApiError::ConflictError => 409,
            ApiError::InternalServerError(_) => 500,
        }
    }

    /// The HTTP status code that answers the error.
    pub fn status_code(&self) -> (code: u16)
        ensures
            code == self.status(),
    {
        match self {
            ApiError::ValidationErrors(_) => 400,
            ApiError::UnauthorizedError => 401,
            ApiError::ForbiddenError => 403,
            ApiError::NotFoundError => 404,
            ApiError::ConflictError => 409,
            ApiError::InternalServerError(_) => 500,
        }
    }
}

/// Every error is answered with a client-error or server-error status
/// (400 to 599), and only an internal failure with a server error.
pub proof fn lemma_error_statuses(e: ApiError)
    ensures
        400 <= e.status() < 600,
        e.status() >= 500 <==> e is InternalServerError,
{
}

} // verus!
