//! What a request is answered with: a status and a body.

use vstd::prelude::*;

verus! {

/// The status of an answer.
#[derive(Clone, Copy, Debug, PartialEq, Eq)]
pub enum Status {
    Success,
    Created,
    NoContent,
    BadRequest,
    NotFound,
    Conflict,
    UnprocessableEntity,
    InternalServerError,
}

impl Status {
    /// The HTTP status code.
    pub open spec fn spec_code(self) -> u16 {
        match self {
            Status::Success => 200,
            Status::Created => 201,
            Status::NoContent => 204,
            Status::BadRequest => 400,
            Status::NotFound => 404,
            Status::Conflict => 409,
            Status::UnprocessableEntity => 422,
            Status::InternalServerError => 500,
        }
    }

    /// The HTTP status code.
    pub fn code(&self) -> (code: u16)
        ensures
            code == self.spec_code(),
    {
        match self {
            Status::Success => 200,
            Status::Created => 201,
            Status::NoContent => 204,
            Status::BadRequest => 400,
            Status::NotFound => 404,
            Status::Conflict => 409,
            Status::UnprocessableEntity => 422,
            Status::InternalServerError => 500,
        }
    }
}

/// The body of an answer that reports a failure.
#[derive(Debug)]
pub struct ErrorResponse {
    pub error: String,
}

/// An answer: its status and its body.
#[derive(Debug)]
pub struct Reply<T> {
    pub status: Status,
    pub body: T,
}

/// A refusal: its status and the message it carries.
pub open spec fn refusal(reply: Reply<ErrorResponse>) -> (Status, Seq<char>) {
    (reply.status, reply.body.error@)
}

/// An answer that carries `data`.
pub fn success_response<T>(data: T, status: Status) -> (reply: Reply<T>)
    ensures
        reply.status == status,
        reply.body == data,
{
    Reply { status, body: data }
}

/// An answer that reports a failure with `message`.
pub fn error_response(message: &str, status: Status) -> (reply: Reply<ErrorResponse>)
    ensures
        refusal(reply) == (status, message@),
{
    Reply { status, body: ErrorResponse { error: String::from_str(message) } }
}

} // verus!
