//! The outcomes a request can end in, and the text that names each.

use vstd::prelude::*;

verus! {

/// How a request against the store ended.
#[derive(Clone, Copy, Debug, PartialEq, Eq, Structural)]
pub enum Outcome {
    /// The request was carried out.
    Done,
    /// A record with that key exists already.
    Conflict,
    /// No record with that key exists.
    Gone,
    /// The credentials or the session were not accepted.
    Unauthorized,
    /// The API key is not known.
    NotFound,
    /// The request could not be carried out and nothing was changed.
    Failed,
}

impl Outcome {
    /// The transport-level status code of an outcome.
    pub open spec fn status_spec(self) -> u16 {
        match self {
            Outcome::Done => 200u16,
            Outcome::Conflict => 409u16,
            Outcome::Gone => 410u16,
            Outcome::Unauthorized => 401u16,
            Outcome::NotFound => 404u16,
            Outcome::Failed => 500u16,
        }
    }

    /// The transport-level status code of an outcome.
    pub fn status(&self) -> (code: u16)
        ensures
            code == self.status_spec(),
    {
        match self {
            Outcome::Done => 200,
            Outcome::Conflict => 409,
            Outcome::Gone => 410,
            Outcome::Unauthorized => 401,
            Outcome::NotFound => 404,
            Outcome::Failed => 500,
        }
    }

    /// The text that names an outcome.
    pub open spec fn reason_spec(self) -> Seq<char> {
        match self {
            Outcome::Done => "OK"@,
            Outcome::Conflict => "Conflict"@,
            Outcome::Gone => "Gone"@,
            Outcome::Unauthorized => "Unauthorized"@,
            Outcome::NotFound => "Not Found"@,
            Outcome::Failed => "Internal Server Error"@,
        }
    }

    /// The text that names an outcome.
    pub fn reason(&self) -> (text: String)
        ensures
            text@ == self.reason_spec(),
    {
        match self {
            Outcome::Done => "OK".to_owned(),
            Outcome::Conflict => conflict(),
            Outcome::Gone => gone(),
            Outcome::Unauthorized => unauth(),
            Outcome::NotFound => not_found(),
            Outcome::Failed => "Internal Server Error".to_owned(),
        }
    }
}

/// The body sent with an unauthorized response.
pub fn unauth() -> (text: String)
    ensures
        text@ == "Unauthorized"@,
{
    "Unauthorized".to_owned()
}

/// The body sent when an API key is not known.
pub fn not_found() -> (text: String)
    ensures
        text@ == "Not Found"@,
{
    "Not Found".to_owned()
}

/// The body sent when the record asked for does not exist.
pub fn gone() -> (text: String)
    ensures
        text@ == "Gone"@,
{
    "Gone".to_owned()
}

/// The body sent when a record with that key exists already.
pub fn conflict() -> (text: String)
    ensures
        text@ == "Conflict"@,
{
    "Conflict".to_owned()
}

} // verus!
