//! The error taxonomy and how each error reaches a client.

use vstd::prelude::*;
use crate::text::push_char;

verus! {

/// Failures of a request. Storage, token and hashing failures keep no detail
/// here: the detail goes to logs, the client sees a fixed message.
#[derive(Debug, Clone)]
pub enum AppError {
    InternalServerError,
    BadRequest(String),
    Unauthorized,
    NotFound,
    DatabaseError,
    JwtError,
    PasswordHashError,
    LLMProviderError { provider: String, status_code: Option<u16>, message: String },
}

pub open spec fn digit_char(d: nat) -> char {
    ((48 + d % 10) as u8) as char
}

/// Decimal rendering of `n`.
pub open spec fn decimal(n: nat) -> Seq<char>
    decreases n,
{
    if n < 10 {
        seq![digit_char(n)]
    } else {
        decimal(n / 10).push(digit_char(n % 10))
    }
}

/// Decimal rendering of a number.
pub fn decimal_string(n: u16) -> (r: String)
    ensures
        r@ == decimal(n as nat),
    decreases n,
{
    let d = ((n % 10) as u8 + 48u8) as char;
    if n < 10 {
        let mut r = String::new();
        push_char(&mut r, d);
        assert(r@ =~= seq![digit_char(n as nat)]);
        r
    } else {
        let mut r = decimal_string(n / 10);
        push_char(&mut r, d);
        r
    }
}

/// Whether a number is accepted as an HTTP status code (three digits).
pub open spec fn valid_status(code: u16) -> bool {
    100 <= code <= 999
}

/// The HTTP status an error is answered with.
pub open spec fn status_of(e: AppError) -> u16 {
    match e {
        AppError::InternalServerError => 500,
        AppError::BadRequest(_) => 400,
        AppError::Unauthorized => 401,
        AppError::NotFound => 404,
        AppError::DatabaseError => 500,
        AppError::JwtError => 401,
        AppError::PasswordHashError => 500,
        AppError::LLMProviderError { status_code, .. } => match status_code {
            Some(c) => if valid_status(c) {
                c
            } else {
                502
            },
            None => 502,
        },
    }
}

/// The text an error is shown as.
pub open spec fn error_text(e: AppError) -> Seq<char> {
    match e {
        AppError::InternalServerError => "Internal Server Error"@,
        AppError::BadRequest(m) => m@,
        AppError::Unauthorized => "Unauthorized"@,
        AppError::NotFound => "Not Found"@,
        AppError::DatabaseError => "Database operation failed"@,
        AppError::JwtError => "Invalid token"@,
        AppError::PasswordHashError => "Could not process request"@,
        AppError::LLMProviderError { provider, status_code, message } => match status_code {
            Some(c) => provider@ + " (HTTP "@ + decimal(c as nat) + "): "@ + message@,
            None => provider@ + ": "@ + message@,
        },
    }
}

impl AppError {
    /// The HTTP status of the response that reports this error.
    pub fn status_code(&self) -> (r: u16)
        ensures
            r == status_of(*self),
    {
        match self {
            AppError::InternalServerError => 500,
            AppError::BadRequest(_) => 400,
            AppError::Unauthorized => 401,
            AppError::NotFound => 404,
            AppError::DatabaseError => 500,
            AppError::JwtError => 401,
            AppError::PasswordHashError => 500,
            AppError::LLMProviderError { status_code, .. } => match status_code {
                Some(c) => if 100 <= *c && *c <= 999 {
                    *c
                } else {
                    502
                },
                None => 502,
            },
        }
    }

    /// The error's message, as a client sees it.
    pub fn to_string(&self) -> (r: String)
        ensures
            r@ == error_text(*self),
    {
        match self {
            AppError::InternalServerError => String::from_str("Internal Server Error"),
            AppError::BadRequest(m) => m.clone(),
            AppError::Unauthorized => String::from_str("Unauthorized"),
            AppError::NotFound => String::from_str("Not Found"),
            AppError::DatabaseError => String::from_str("Database operation failed"),
            AppError::JwtError => String::from_str("Invalid token"),
            AppError::PasswordHashError => String::from_str("Could not process request"),
            AppError::LLMProviderError { provider, status_code, message } => {
                let mut r = provider.clone();
                match status_code {
                    Some(c) => {
                        r.append(" (HTTP ");
                        let d = decimal_string(*c);
                        r.append(d.as_str());
                        r.append("): ");
                    },
                    None => {
                        r.append(": ");
                    },
                }
                r.append(message.as_str());
                r
            },
        }
    }
}

} // verus!
