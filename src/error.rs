use vstd::prelude::*;
use vstd::string::StringExecFns;

verus! {

#[verifier::external_type_specification]
#[verifier::external_body]
pub struct ExParseIntError(std::num::ParseIntError);

/// The error kinds that leave the library.
#[derive(Debug)]
pub enum Error {
    /// A value was present but was not a valid unsigned integer.
    ParseError(std::num::ParseIntError),
    /// A required query or form key was absent.
    MissingParameters,
    /// The targeted question does not exist.
    QuestionNotFound,
    /// Pagination bounds are inconsistent with the listed collection.
    RangeInvalid,
}

/// The status for a rejected request: a missing question is 416, every
/// input error is 422.
pub open spec fn status_of(e: Error) -> u16 {
    match e {
        Error::QuestionNotFound => 416,
        _ => 422,
    }
}

pub open spec fn parse_error_prefix() -> Seq<char> {
    seq!['P', 'a', 'r', 's', 'e', ' ', 'E', 'r', 'r', 'o', 'r', ':', ' ']
}

/// Relies on `ToString` of `ParseIntError` (its `Display`): the error's own
/// description, such as "invalid digit found in string".
#[verifier::external_body]
fn parse_int_error_description(e: &std::num::ParseIntError) -> String {
    e.to_string()
}

/// The message for a parse error whose underlying description is
/// `description`: the fixed prefix followed by that description.
pub fn parse_error_message(description: &str) -> (r: String)
    ensures
        r@ == parse_error_prefix() + description@,
{
    let mut r = "Parse Error: ".to_owned();
    proof {
        reveal_strlit("Parse Error: ");
        assert("Parse Error: "@ =~= parse_error_prefix());
    }
    r.append(description);
    r
}

impl Error {
    /// The HTTP status with which the request layer answers this error.
    pub fn status_code(&self) -> (r: u16)
        ensures
            r == status_of(*self),
    {
        match self {
            Error::QuestionNotFound => 416,
            _ => 422,
        }
    }

    /// A human-readable description of the error.
    pub fn message(&self) -> (r: String)
        ensures
            *self is MissingParameters ==> r@ == "Missing Parameters"@,
            *self is QuestionNotFound ==> r@ == "Question Not Found"@,
            *self is RangeInvalid ==> r@ == "Range Invalid"@,
            *self is ParseError ==> exists|d: Seq<char>| r@ == parse_error_prefix() + d,
            *self is ParseError ==> r@.len() >= parse_error_prefix().len() && r@.subrange(
                0,
                parse_error_prefix().len() as int,
            ) == parse_error_prefix(),
    {
        match self {
            Error::ParseError(e) => {
                let description = parse_int_error_description(e);
                let r = parse_error_message(description.as_str());
                assert(r@.subrange(0, parse_error_prefix().len() as int) =~= parse_error_prefix());
                r
            },
            Error::MissingParameters => "Missing Parameters".to_owned(),
            Error::QuestionNotFound => "Question Not Found".to_owned(),
            Error::RangeInvalid => "Range Invalid".to_owned(),
        }
    }
}

} // verus!
