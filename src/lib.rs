//! Decoding and encoding of application types through a generic value tree.
//!
//! A [`Value`] is a tree of scalars, strings, options, sequences, maps and byte
//! blobs. Decoders are plain functions (or any [`Decoder`]) from a `Value` to a
//! typed result; a [`FieldMap`] hands out each field of a map exactly once.
use vstd::prelude::*;

pub mod decode;
pub mod encode;
pub mod error;
pub mod fields;
pub mod order;
pub mod time;
pub mod value;

pub use error::Error;
pub use fields::FieldMap;
pub use time::Duration;
pub use value::{Datum, Unexpected, Value};

verus! {

/// A decoding result.
pub type Result<T> = std::result::Result<T, Error>;

/// Some logic that turns a [`Value`] into some [`Output`](Self::Output).
///
/// Every function from a `Value` to a [`Result`] is a decoder; the functions of
/// this library that take a decoder take such a function, whose precondition a
/// verified caller can establish for a plain function such as
/// [`decode::u8`]. A hand-written decoder `d` is passed as `|v| d.run(v)`.
pub trait Decoder {
    /// The output of the [`Decoder`].
    type Output;

    /// The values that the decoder may be run on.
    spec fn accepts(&self, value: Value) -> bool;

    /// `r` is a possible result of running the decoder on `value`.
    spec fn decodes(&self, value: Value, r: Result<Self::Output>) -> bool;

    /// Runs the [`Decoder`].
    fn run(&self, value: Value) -> (r: Result<Self::Output>)
        requires
            self.accepts(value),
        ensures
            self.decodes(value, r),
    ;
}

impl<F, T> Decoder for F where F: Fn(Value) -> Result<T> {
    type Output = T;

    open spec fn accepts(&self, value: Value) -> bool {
        self.requires((value,))
    }

    open spec fn decodes(&self, value: Value, r: Result<T>) -> bool {
        self.ensures((value,), r)
    }

    fn run(&self, value: Value) -> (r: Result<T>) {
        self(value)
    }
}

/// Runs a decoder on the [`Value`] that `deserialize` makes of `input`. A
/// failure of `deserialize` becomes [`Error::Deserializer`] with its message.
pub fn run<T, I, E>(
    deserialize: impl Fn(I) -> std::result::Result<Value, E>,
    decoder: impl Fn(Value) -> Result<T>,
    input: I,
) -> (r: Result<T>) where E: std::error::Error + Send + Sync + 'static
    requires
        deserialize.requires((input,)),
        forall|v: Value| #[trigger] decoder.requires((v,)),
    ensures
        exists|out: std::result::Result<Value, E>|
            #[trigger] deserialize.ensures((input,), out) && match out {
                Ok(v) => decoder.ensures((v,), r),
                Err(cause) => r matches Err(Error::Deserializer(message))
                    && vstd::string::to_string_from_display_ensures::<E>(&cause, message),
            },
{
    match deserialize(input) {
        Ok(value) => decoder(value),
        Err(e) => Err(Error::Deserializer(e.to_string())),
    }
}

} // verus!
