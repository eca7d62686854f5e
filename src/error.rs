use vstd::prelude::*;

use crate::value::{Datum, Unexpected, Value, entries_view};

verus! {

/// A decoder error.
#[derive(Debug, Clone)]
pub enum Error {
    /// A value was not of the kind that a decoder required.
    InvalidType { expected: &'static str, got: Unexpected },
    /// A required field was absent; `map` holds the entries that were still
    /// present, in order.
    FieldMissing { key: String, map: Vec<(Value, Value)> },
    /// An error raised by the caller's own decoding logic.
    Custom(String),
    /// The outside conversion into a [`Value`] failed. This holds the cause's
    /// message rather than the cause itself: a shared trait object cannot
    /// stand in verified code, and a `String` is as cheap to clone and as
    /// safe to send between threads.
    Deserializer(String),
}

impl Error {
    /// `self` reports that a decoder expected `expected` and found a value with
    /// content `found`.
    pub open spec fn is_invalid_type(self, expected: Seq<char>, found: Datum) -> bool {
        self matches Error::InvalidType { expected: e, got } && e@ == expected && got.describes(found)
    }

    /// `self` reports that `key` was missing from a map whose remaining
    /// entries were `rest`.
    pub open spec fn is_field_missing(self, key: Seq<char>, rest: Seq<(Datum, Datum)>) -> bool {
        self matches Error::FieldMissing { key: k, map } && k@ == key && entries_view(map@) == rest
    }

    /// Creates a custom [`Error`] holding the displayed form of `error`.
    pub fn custom<T: std::fmt::Display>(error: T) -> (r: Error)
        ensures
            r matches Error::Custom(message) && vstd::string::to_string_from_display_ensures::<T>(
                &error,
                message,
            ),
    {
        Error::Custom(error.to_string())
    }
}

} // verus!
