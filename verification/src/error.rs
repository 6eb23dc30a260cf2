//! The errors that the library reports.

use vstd::prelude::*;

use crate::text::decimal;
use crate::text::decimal_text;

verus! {

/// An error in the configuration, the key metadata or the Key Management Server.
#[derive(Debug, PartialEq, Eq)]
pub enum Error {
    /// The normal flow of key management was violated.
    General(String),
    /// The functionality is not yet available.
    Nyi(String),
    /// There were not enough bytes.
    Eof(String),
    /// An error in working with Arrow data.
    Arrow(String),
    /// An index is larger than allowed: the index and the bound.
    IndexOutOfBound(u64, u64),
    /// This many bytes are needed in total.
    NeedMoreData(u64),
    /// The bytes from the first position up to the second are needed.
    NeedMoreDataRange(u64, u64),
    /// An error that a dependency reported, in its own words.
    External(String),
    /// The configuration is invalid or not supported.
    Configuration(String),
    /// The text given for an option could not be read as its value.
    InvalidValue(String),
}

/// The kind of an [`Error`] and its message.
pub enum ErrorModel {
    General(Seq<char>),
    Nyi(Seq<char>),
    Eof(Seq<char>),
    Arrow(Seq<char>),
    IndexOutOfBound(u64, u64),
    NeedMoreData(u64),
    NeedMoreDataRange(u64, u64),
    External(Seq<char>),
    Configuration(Seq<char>),
    InvalidValue(Seq<char>),
}

impl View for Error {
    type V = ErrorModel;

    open spec fn view(&self) -> ErrorModel {
        match self {
            Error::General(message) => ErrorModel::General(message@),
            Error::Nyi(message) => ErrorModel::Nyi(message@),
            Error::Eof(message) => ErrorModel::Eof(message@),
            Error::Arrow(message) => ErrorModel::Arrow(message@),
            Error::IndexOutOfBound(index, bound) => ErrorModel::IndexOutOfBound(*index, *bound),
            Error::NeedMoreData(needed) => ErrorModel::NeedMoreData(*needed),
            Error::NeedMoreDataRange(start, end) => ErrorModel::NeedMoreDataRange(*start, *end),
            Error::External(message) => ErrorModel::External(message@),
            Error::Configuration(message) => ErrorModel::Configuration(message@),
            Error::InvalidValue(message) => ErrorModel::InvalidValue(message@),
        }
    }
}

impl Clone for Error {
    fn clone(&self) -> (r: Self)
        ensures
            r@ == self@,
    {
        match self {
            Error::General(message) => Error::General(message.clone()),
            Error::Nyi(message) => Error::Nyi(message.clone()),
            Error::Eof(message) => Error::Eof(message.clone()),
            Error::Arrow(message) => Error::Arrow(message.clone()),
            Error::IndexOutOfBound(index, bound) => Error::IndexOutOfBound(*index, *bound),
            Error::NeedMoreData(needed) => Error::NeedMoreData(*needed),
            Error::NeedMoreDataRange(start, end) => Error::NeedMoreDataRange(*start, *end),
            Error::External(message) => Error::External(message.clone()),
            Error::Configuration(message) => Error::Configuration(message.clone()),
            Error::InvalidValue(message) => Error::InvalidValue(message.clone()),
        }
    }
}

/// The text that describes an error to a user.
pub open spec fn described(error: ErrorModel) -> Seq<char> {
    match error {
        ErrorModel::General(message) => "Parquet error: "@ + message,
        ErrorModel::Nyi(message) => "NYI: "@ + message,
        ErrorModel::Eof(message) => "EOF: "@ + message,
        ErrorModel::Arrow(message) => "Arrow: "@ + message,
        ErrorModel::IndexOutOfBound(index, bound) => "Index "@ + decimal(index as nat)
            + " out of bound: "@ + decimal(bound as nat),
        ErrorModel::NeedMoreData(needed) => "NeedMoreData: "@ + decimal(needed as nat),
        ErrorModel::NeedMoreDataRange(start, end) => "NeedMoreDataRange: "@ + decimal(start as nat)
            + ".."@ + decimal(end as nat),
        ErrorModel::External(message) => "External: "@ + message,
        ErrorModel::Configuration(message) => "Invalid or Unsupported Configuration: "@ + message,
        ErrorModel::InvalidValue(message) => message,
    }
}

/// What an operation that yields bytes came to.
pub open spec fn bytes_outcome(r: Result<Vec<u8>, Error>) -> Result<Seq<u8>, ErrorModel> {
    match r {
        Ok(bytes) => Ok(bytes@),
        Err(error) => Err(error@),
    }
}

/// What an operation that yields text came to.
pub open spec fn text_outcome(r: Result<String, Error>) -> Result<Seq<char>, ErrorModel> {
    match r {
        Ok(text) => Ok(text@),
        Err(error) => Err(error@),
    }
}

impl Error {
    /// Describes the error to a user.
    pub fn to_string(&self) -> (text: String)
        ensures
            text@ == described(self@),
    {
        match self {
            Error::General(message) => "Parquet error: ".to_owned().concat(message.as_str()),
            Error::Nyi(message) => "NYI: ".to_owned().concat(message.as_str()),
            Error::Eof(message) => "EOF: ".to_owned().concat(message.as_str()),
            Error::Arrow(message) => "Arrow: ".to_owned().concat(message.as_str()),
            Error::IndexOutOfBound(index, bound) => "Index ".to_owned().concat(
                decimal_text(*index).as_str(),
            ).concat(" out of bound: ").concat(decimal_text(*bound).as_str()),
            Error::NeedMoreData(needed) => "NeedMoreData: ".to_owned().concat(
                decimal_text(*needed).as_str(),
            ),
            Error::NeedMoreDataRange(start, end) => "NeedMoreDataRange: ".to_owned().concat(
                decimal_text(*start).as_str(),
            ).concat("..").concat(decimal_text(*end).as_str()),
            Error::External(message) => "External: ".to_owned().concat(message.as_str()),
            Error::Configuration(message) => "Invalid or Unsupported Configuration: ".to_owned().concat(
                message.as_str(),
            ),
            Error::InvalidValue(message) => message.clone(),
        }
    }
}

/// The description of an error has its message, after a text for the kind of error, and its numbers
/// in decimal.
pub proof fn law_description_has_the_message(message: Seq<char>, first: u64, second: u64)
    ensures
        described(ErrorModel::General(message)) == "Parquet error: "@ + message,
        described(ErrorModel::Nyi(message)) == "NYI: "@ + message,
        described(ErrorModel::Eof(message)) == "EOF: "@ + message,
        described(ErrorModel::Arrow(message)) == "Arrow: "@ + message,
        described(ErrorModel::External(message)) == "External: "@ + message,
        described(ErrorModel::Configuration(message)) == "Invalid or Unsupported Configuration: "@
            + message,
        described(ErrorModel::InvalidValue(message)) == message,
        described(ErrorModel::IndexOutOfBound(first, second)) == "Index "@ + decimal(first as nat)
            + " out of bound: "@ + decimal(second as nat),
        described(ErrorModel::NeedMoreData(first)) == "NeedMoreData: "@ + decimal(first as nat),
        described(ErrorModel::NeedMoreDataRange(first, second)) == "NeedMoreDataRange: "@ + decimal(
            first as nat,
        ) + ".."@ + decimal(second as nat),
{
}

} // verus!
