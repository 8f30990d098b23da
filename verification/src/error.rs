//! The error type shared by every fallible operation of the crate.

use vstd::prelude::*;
use vstd::string::StringExecFns;

verus! {

/// What went wrong, with a message for the reader.
///
/// - `Io`: a source could not be fetched or read, or was asked for features
///   before it was opened.
/// - `Serialization`: a format error. The content cannot be parsed, or it
///   is in an encoding that is not supported.
/// - `Validation`: a value breaks a rule of the model: a coordinate out of
///   range or without a finite place, a zoom level, size or layer setting
///   that is not allowed, a tile outside the grid.
/// - `Wasm`: the drawing target is missing or refused a call.
/// - `Arrow`, `Parquet`: failures of those two encodings.
#[derive(Debug, PartialEq, Eq)]
pub enum GeoArrowError {
    Io(String),
    Arrow(String),
    Parquet(String),
    Serialization(String),
    Validation(String),
    Wasm(String),
}

/// An error as a mathematical value: its kind and its message.
pub enum Failure {
    Io(Seq<char>),
    Arrow(Seq<char>),
    Parquet(Seq<char>),
    Serialization(Seq<char>),
    Validation(Seq<char>),
    Wasm(Seq<char>),
}

impl View for GeoArrowError {
    type V = Failure;

    open spec fn view(&self) -> Failure {
        match self {
            GeoArrowError::Io(m) => Failure::Io(m@),
            GeoArrowError::Arrow(m) => Failure::Arrow(m@),
            GeoArrowError::Parquet(m) => Failure::Parquet(m@),
            GeoArrowError::Serialization(m) => Failure::Serialization(m@),
            GeoArrowError::Validation(m) => Failure::Validation(m@),
            GeoArrowError::Wasm(m) => Failure::Wasm(m@),
        }
    }
}

impl Clone for GeoArrowError {
    fn clone(&self) -> (copy: GeoArrowError)
        ensures
            copy == *self,
    {
        match self {
            GeoArrowError::Io(m) => GeoArrowError::Io(m.clone()),
            GeoArrowError::Arrow(m) => GeoArrowError::Arrow(m.clone()),
            GeoArrowError::Parquet(m) => GeoArrowError::Parquet(m.clone()),
            GeoArrowError::Serialization(m) => GeoArrowError::Serialization(m.clone()),
            GeoArrowError::Validation(m) => GeoArrowError::Validation(m.clone()),
            GeoArrowError::Wasm(m) => GeoArrowError::Wasm(m.clone()),
        }
    }
}

impl GeoArrowError {
    /// The message carried by the error, without the prefix of its kind.
    pub open spec fn spec_message(self) -> Seq<char> {
        match self {
            GeoArrowError::Io(m) => m@,
            GeoArrowError::Arrow(m) => m@,
            GeoArrowError::Parquet(m) => m@,
            GeoArrowError::Serialization(m) => m@,
            GeoArrowError::Validation(m) => m@,
            GeoArrowError::Wasm(m) => m@,
        }
    }

    /// The prefix that names the kind of the error in its rendered form.
    pub open spec fn spec_prefix(self) -> Seq<char> {
        match self {
            GeoArrowError::Io(_) => "i/o error: "@,
            GeoArrowError::Arrow(_) => "Arrow error: "@,
            GeoArrowError::Parquet(_) => "Parquet Error: "@,
            GeoArrowError::Serialization(_) => "Serialization error: "@,
            GeoArrowError::Validation(_) => "Validation error: "@,
            GeoArrowError::Wasm(_) => "WebAssembly error: "@,
        }
    }

    /// `true` for a `Serialization` error that carries exactly `text`.
    pub open spec fn is_serialization(self, text: Seq<char>) -> bool {
        self matches GeoArrowError::Serialization(m) && m@ == text
    }

    /// `true` for a `Validation` error that carries exactly `text`.
    pub open spec fn is_validation(self, text: Seq<char>) -> bool {
        self matches GeoArrowError::Validation(m) && m@ == text
    }

    /// `true` for an `Io` error that carries exactly `text`.
    pub open spec fn is_io(self, text: Seq<char>) -> bool {
        self matches GeoArrowError::Io(m) && m@ == text
    }

    /// A `Serialization` error with the given message.
    pub fn serialization(text: &str) -> (e: GeoArrowError)
        ensures
            e.is_serialization(text@),
            e@ == Failure::Serialization(text@),
    {
        GeoArrowError::Serialization(String::from_str(text))
    }

    /// A `Validation` error with the given message.
    pub fn validation(text: &str) -> (e: GeoArrowError)
        ensures
            e.is_validation(text@),
            e@ == Failure::Validation(text@),
    {
        GeoArrowError::Validation(String::from_str(text))
    }

    /// The message carried by the error.
    pub fn message(&self) -> (m: &str)
        ensures
            m@ == self.spec_message(),
    {
        match self {
            GeoArrowError::Io(m) => m.as_str(),
            GeoArrowError::Arrow(m) => m.as_str(),
            GeoArrowError::Parquet(m) => m.as_str(),
            GeoArrowError::Serialization(m) => m.as_str(),
            GeoArrowError::Validation(m) => m.as_str(),
            GeoArrowError::Wasm(m) => m.as_str(),
        }
    }

    /// The error as one line of text: the prefix of its kind, then the message.
    pub fn to_text(&self) -> (s: String)
        ensures
            s@ == self.spec_prefix() + self.spec_message(),
    {
        let prefix: &str = match self {
            GeoArrowError::Io(_) => "i/o error: ",
            GeoArrowError::Arrow(_) => "Arrow error: ",
            GeoArrowError::Parquet(_) => "Parquet Error: ",
            GeoArrowError::Serialization(_) => "Serialization error: ",
            GeoArrowError::Validation(_) => "Validation error: ",
            GeoArrowError::Wasm(_) => "WebAssembly error: ",
        };
        String::from_str(prefix).concat(self.message())
    }
}

} // verus!
