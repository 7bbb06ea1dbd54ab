//! The logic of a web service that scrapes a school's web site: the timetable
//! list, the timetables of classes and teachers, a room's timetable gathered
//! from them, the announcements and the news of the home page.
pub mod controllers;
pub mod entities;
pub mod utils;

use vstd::prelude::*;
use vstd::std_specs::convert::FromSpecImpl;
use vstd::string::*;

verus! {

/// `std::io::Error`, carried through unopened.
#[verifier::external_type_specification]
#[verifier::external_body]
pub struct ExIoError(std::io::Error);

/// `serde_json::Error`, carried through unopened.
#[verifier::external_type_specification]
#[verifier::external_body]
pub struct ExSerdeJsonError(serde_json::Error);

/// `reqwest::Error`, carried through unopened.
#[verifier::external_type_specification]
#[verifier::external_body]
pub struct ExReqwestError(reqwest::Error);

/// The settings the service starts with: where it listens.
#[derive(Debug)]
pub struct Config {
    pub address: String,
    pub port: u16,
}

/// Why a request failed.
#[derive(Debug)]
pub enum ApiError {
    /// Reading a file failed.
    IoError(std::io::Error),
    /// Reading or writing JSON failed.
    SerdeError(serde_json::Error),
    /// Fetching a page failed.
    ReqwestError(reqwest::Error),
    /// A value that was looked for is missing.
    NoneValue(&'static str),
}

/// The HTTP status of an error: not found for a missing value, an internal
/// server error for the rest.
pub open spec fn error_status(e: ApiError) -> u16 {
    match e {
        ApiError::NoneValue(_) => 404,
        _ => 500,
    }
}

/// The message of an error: the name of its kind, or, for a missing value,
/// `Value {name} is None`.
pub open spec fn error_message(e: ApiError) -> Seq<char> {
    match e {
        ApiError::IoError(_) => "IoError"@,
        ApiError::SerdeError(_) => "SerdeError"@,
        ApiError::ReqwestError(_) => "ReqwestError"@,
        ApiError::NoneValue(v) => "Value "@ + v@ + " is None"@,
    }
}

impl ApiError {
    /// The HTTP status of the error.
    pub fn status_code(&self) -> (r: u16)
        ensures
            r == error_status(*self),
    {
        match self {
            Self::IoError(_) | Self::SerdeError(_) | Self::ReqwestError(_) => 500,
            Self::NoneValue(_) => 404,
        }
    }

    /// The message of the error.
    pub fn message(&self) -> (r: String)
        ensures
            r@ == error_message(*self),
    {
        match self {
            Self::IoError(_) => "IoError".to_owned(),
            Self::SerdeError(_) => "SerdeError".to_owned(),
            Self::ReqwestError(_) => "ReqwestError".to_owned(),
            Self::NoneValue(v) => {
                let mut r = String::new();
                r.append("Value ");
                r.append(v);
                r.append(" is None");
                r
            },
        }
    }
}

impl From<std::io::Error> for ApiError {
    fn from(value: std::io::Error) -> (r: Self) {
        Self::IoError(value)
    }
}

impl FromSpecImpl<std::io::Error> for ApiError {
    open spec fn obeys_from_spec() -> bool {
        true
    }

    open spec fn from_spec(v: std::io::Error) -> Self {
        ApiError::IoError(v)
    }
}

impl From<serde_json::Error> for ApiError {
    fn from(value: serde_json::Error) -> (r: Self) {
        Self::SerdeError(value)
    }
}

impl FromSpecImpl<serde_json::Error> for ApiError {
    open spec fn obeys_from_spec() -> bool {
        true
    }

    open spec fn from_spec(v: serde_json::Error) -> Self {
        ApiError::SerdeError(v)
    }
}

impl From<reqwest::Error> for ApiError {
    fn from(value: reqwest::Error) -> (r: Self) {
        Self::ReqwestError(value)
    }
}

impl FromSpecImpl<reqwest::Error> for ApiError {
    open spec fn obeys_from_spec() -> bool {
        true
    }

    open spec fn from_spec(v: reqwest::Error) -> Self {
        ApiError::ReqwestError(v)
    }
}

} // verus!
