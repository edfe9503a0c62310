use vstd::prelude::*;

verus! {

/// The closed set of status codes that a response of this server can carry.
#[derive(Copy, Clone, Debug, PartialEq, Eq, Structural)]
pub enum StatusCode {
    Okay,
    BadRequest,
    NotFound,
}

impl StatusCode {
    /// The numeric value of the status code.
    pub open spec fn spec_code(self) -> u16 {
        match self {
            StatusCode::Okay => 200,
            StatusCode::BadRequest => 400,
            StatusCode::NotFound => 404,
        }
    }

    /// The decimal digits of the numeric value, as they appear on the wire.
    pub open spec fn spec_code_chars(self) -> Seq<char> {
        match self {
            StatusCode::Okay => "200"@,
            StatusCode::BadRequest => "400"@,
            StatusCode::NotFound => "404"@,
        }
    }

    /// The reason phrase that accompanies the numeric value on the wire.
    pub open spec fn spec_reason(self) -> Seq<char> {
        match self {
            StatusCode::Okay => "Ok"@,
            StatusCode::BadRequest => "Bad Request"@,
            StatusCode::NotFound => "Not Found"@,
        }
    }

    /// The numeric value of the status code.
    pub fn code(&self) -> (r: u16)
        ensures
            r == self.spec_code(),
    {
        match self {
            StatusCode::Okay => 200,
            StatusCode::BadRequest => 400,
            StatusCode::NotFound => 404,
        }
    }

    /// The numeric value of the status code, written in decimal digits.
    pub fn code_str(&self) -> (r: &'static str)
        ensures
            r@ == self.spec_code_chars(),
    {
        match self {
            StatusCode::Okay => "200",
            StatusCode::BadRequest => "400",
            StatusCode::NotFound => "404",
        }
    }

    /// The human-readable reason phrase of the status code.
    pub fn reason_phrase(&self) -> (r: &'static str)
        ensures
            r@ == self.spec_reason(),
    {
        match self {
            StatusCode::Okay => "Ok",
            StatusCode::BadRequest => "Bad Request",
            StatusCode::NotFound => "Not Found",
        }
    }
}

} // verus!
