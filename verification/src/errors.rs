use vstd::prelude::*;

verus! {

/// Uniform error record returned at every boundary of the library:
/// a stable machine code, a human-readable message, and an optional
/// actionable suggestion.
#[derive(Debug, Clone)]
pub struct AppError {
    pub code: String,
    pub message: String,
    pub suggestion: Option<String>,
}

impl AppError {
    pub fn new(code: &str, message: &str, suggestion: Option<String>) -> (r: AppError)
        ensures
            r.code@ == code@,
            r.message@ == message@,
            r.suggestion == suggestion,
    {
        AppError { code: code.to_owned(), message: message.to_owned(), suggestion }
    }

    /// A field-for-field copy of this error.
    pub fn duplicate(&self) -> (r: AppError)
        ensures
            r == *self,
    {
        AppError {
            code: self.code.clone(),
            message: self.message.clone(),
            suggestion: match &self.suggestion {
                Some(s) => Some(s.clone()),
                None => None,
            },
        }
    }
}

/// A field-for-field copy of an optional error.
pub fn duplicate_opt_error(e: &Option<AppError>) -> (r: Option<AppError>)
    ensures
        r == *e,
{
    match e {
        Some(err) => Some(err.duplicate()),
        None => None,
    }
}

} // verus!
