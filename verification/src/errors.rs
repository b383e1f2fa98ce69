use vstd::prelude::*;

verus! {

/// Capability for error types that can report a buffer whose length did not
/// match a requirement. Implementing it unlocks the length-checked
/// deserialization entry points of [`crate::serialize::DeserializableSlice`].
pub trait BadLength: Sized {
    /// The value that [`Self::bad_length`] constructs, as seen by contracts.
    spec fn spec_bad_length(found: usize, expected: usize) -> Self;

    /// Construct the error signaling that `found` bytes were available where
    /// `expected` were required.
    fn bad_length(found: usize, expected: usize) -> (r: Self)
        ensures
            r == Self::spec_bad_length(found, expected),
    ;
}

/// Capability for error types that can report a character outside the
/// hexadecimal alphabet. Implementing it unlocks the runtime hex parsing of
/// [`crate::parse::ParseHexStr`].
pub trait InvalidChar: Sized {
    /// The value that [`Self::invalid_char`] constructs, as seen by contracts.
    spec fn spec_invalid_char(ch: char, index: usize) -> Self;

    /// Construct the error signaling that the non-hexadecimal character `ch`
    /// was found at position `index` of the input.
    fn invalid_char(ch: char, index: usize) -> (r: Self)
        ensures
            r == Self::spec_invalid_char(ch, index),
    ;
}

/// The closed set of failure reasons of this crate's own operations.
#[derive(Copy, Debug, Clone, Eq, Hash, Ord, PartialEq, PartialOrd, Structural)]
pub enum Error {
    /// A semantically malformed payload, with no further detail.
    InvalidData,
    /// A buffer or string whose length did not match a requirement.
    BadLength {
        /// The length that was found.
        found: usize,
        /// The length that was required.
        expected: usize,
    },
    /// A byte outside the hexadecimal alphabet during hex decoding.
    InvalidChar {
        /// The invalid character found.
        ch: char,
        /// The character's zero-based index in the input.
        index: usize,
    },
}

impl BadLength for Error {
    open spec fn spec_bad_length(found: usize, expected: usize) -> Self {
        Error::BadLength { found, expected }
    }

    fn bad_length(found: usize, expected: usize) -> (r: Self) {
        Error::BadLength { found, expected }
    }
}

impl InvalidChar for Error {
    open spec fn spec_invalid_char(ch: char, index: usize) -> Self {
        Error::InvalidChar { ch, index }
    }

    fn invalid_char(ch: char, index: usize) -> (r: Self) {
        Error::InvalidChar { ch, index }
    }
}

} // verus!
