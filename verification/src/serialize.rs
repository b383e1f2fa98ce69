use crate::errors::BadLength;
use crate::errors::Error;
use vstd::prelude::*;
use vstd::slice::slice_subrange;

verus! {

/// The fixed-size codec contract: a type that converts itself to and from
/// exactly `N` bytes.
///
/// An implementer supplies the two specification functions modeling the
/// conversions, the two executable conversions proved against them, and a
/// proof of the round-trip law: decoding an encoded value always succeeds and
/// yields the value itself.
pub trait Serializable<const N: usize>: Sized {
    /// The type returned in the event of a conversion error.
    type Error;

    /// The exact wire representation of a value, as a sequence of `N` bytes.
    spec fn spec_to_bytes(&self) -> Seq<u8>;

    /// The value that a sequence of `N` bytes represents, or `None` if the
    /// bytes are semantically malformed for this type.
    spec fn spec_from_bytes(s: Seq<u8>) -> Option<Self>;

    /// The round-trip law: every encoding has exactly `N` bytes and decodes
    /// back to the encoded value.
    proof fn lemma_round_trip(&self)
        ensures
            self.spec_to_bytes().len() == N,
            Self::spec_from_bytes(self.spec_to_bytes()) == Some(*self),
    ;

    /// Serialize `self` into exactly `N` bytes.
    fn to_bytes(&self) -> (r: [u8; N])
        ensures
            r@ == self.spec_to_bytes(),
    ;

    /// Deserialize exactly `N` bytes into a value. No length check is needed:
    /// the input type already guarantees the exact length. Fails if and only
    /// if the bytes are semantically malformed for this type.
    fn from_bytes(buf: &[u8; N]) -> (r: Result<Self, Self::Error>)
        ensures
            match r {
                Ok(v) => Self::spec_from_bytes(buf@) == Some(v),
                Err(_) => Self::spec_from_bytes(buf@) is None,
            },
    ;

    /// The wire size of this type, in bytes.
    fn size() -> (n: usize)
        ensures
            n == N,
    {
        N
    }
}

/// A byte source: a cursor over a byte-addressable medium from which bytes
/// can be pulled sequentially. Reading consumes a prefix of the remaining
/// bytes; a read larger than what remains fails without consuming anything.
pub trait Read {
    /// The bytes still available to be read, in order.
    spec fn spec_data(&self) -> Seq<u8>;

    /// The number of bytes available without blocking.
    fn capacity(&self) -> (n: usize)
        ensures
            n == self.spec_data().len(),
    ;

    /// Fill `buf` entirely from this source, returning how many bytes were
    /// read and advancing the source past them. If fewer than `buf.len()`
    /// bytes remain, fail with a length error reporting available versus
    /// requested, leaving both the source and `buf` untouched.
    fn read(&mut self, buf: &mut [u8]) -> (r: Result<usize, Error>)
        ensures
            match r {
                Ok(n) => {
                    &&& n == old(buf)@.len()
                    &&& n <= old(self).spec_data().len()
                    &&& final(buf)@ == old(self).spec_data().take(n as int)
                    &&& final(self).spec_data() == old(self).spec_data().skip(n as int)
                },
                Err(e) => {
                    &&& old(self).spec_data().len() < old(buf)@.len()
                    &&& e == (Error::BadLength {
                        found: old(self).spec_data().len() as usize,
                        expected: old(buf)@.len() as usize,
                    })
                    &&& final(self).spec_data() == old(self).spec_data()
                    &&& final(buf)@ == old(buf)@
                },
            },
    ;
}

impl<'a> Read for &'a [u8] {
    open spec fn spec_data(&self) -> Seq<u8> {
        (*self)@
    }

    fn capacity(&self) -> (n: usize) {
        self.len()
    }

    fn read(&mut self, buf: &mut [u8]) -> (r: Result<usize, Error>) {
        let available = self.len();
        let amt = buf.len();
        if amt > available {
            return Err(Error::BadLength { found: available, expected: amt });
        }
        let mut i: usize = 0;
        while i < amt
            invariant
                i <= amt,
                amt == buf@.len(),
                amt <= (*self)@.len(),
                forall|k: int| 0 <= k < i ==> buf@[k] == (*self)@[k],
            decreases amt - i,
        {
            buf[i] = *vstd::slice::slice_index_get(*self, i);
            i += 1;
        }
        *self = slice_subrange(*self, amt, available);
        proof {
            assert(buf@ =~= old(self).spec_data().take(amt as int));
            assert((*self)@ =~= old(self).spec_data().skip(amt as int));
        }
        Ok(amt)
    }
}

/// The round-trip law, executable form: encoding a value and decoding the
/// resulting bytes always succeeds and yields a value equal to the one
/// encoded.
pub fn encode_decode<T, const N: usize>(value: &T) -> (r: Result<T, T::Error>) where
    T: Serializable<N>,

    ensures
        r matches Ok(w) && w == *value,
{
    let bytes = value.to_bytes();
    proof {
        value.lemma_round_trip();
    }
    T::from_bytes(&bytes)
}

/// Length-checked deserialization, automatically available to every
/// [`Serializable`] type whose error type implements
/// [`BadLength`]: the available length is validated before the fixed-size
/// conversion is attempted.
pub trait DeserializableSlice<const N: usize>: Serializable<N> where Self::Error: BadLength {
    /// Deserialize a value from the first `N` bytes of `buf`. Bytes beyond
    /// the first `N` are ignored. If `buf` holds fewer than `N` bytes, fail
    /// with a length error and never attempt interpretation.
    fn from_slice(buf: &[u8]) -> (r: Result<Self, Self::Error>)
        ensures
            buf@.len() < N ==> r == Err::<Self, Self::Error>(
                Self::Error::spec_bad_length(buf@.len() as usize, N),
            ),
            buf@.len() >= N ==> match r {
                Ok(v) => Self::spec_from_bytes(buf@.take(N as int)) == Some(v),
                Err(_) => Self::spec_from_bytes(buf@.take(N as int)) is None,
            },
    ;

    /// Deserialize a value by pulling exactly `N` bytes from a byte source.
    /// On success, and on a semantic decode failure, exactly `N` bytes are
    /// consumed; if the source holds fewer than `N` bytes, fail with a length
    /// error and consume nothing, so that the read can be retried once more
    /// data is available.
    fn from_reader<R: Read>(reader: &mut R) -> (r: Result<Self, Self::Error>)
        ensures
            match r {
                Ok(v) => {
                    &&& old(reader).spec_data().len() >= N
                    &&& Self::spec_from_bytes(old(reader).spec_data().take(N as int))
                        == Some(v)
                    &&& final(reader).spec_data() == old(reader).spec_data().skip(N as int)
                },
                Err(e) => {
                    ||| {
                        &&& old(reader).spec_data().len() < N
                        &&& e == Self::Error::spec_bad_length(
                            old(reader).spec_data().len() as usize,
                            N,
                        )
                        &&& final(reader).spec_data() == old(reader).spec_data()
                    }
                    ||| {
                        &&& old(reader).spec_data().len() >= N
                        &&& Self::spec_from_bytes(old(reader).spec_data().take(N as int))
                            is None
                        &&& final(reader).spec_data() == old(reader).spec_data().skip(
                            N as int,
                        )
                    }
                },
            },
    ;
}

impl<T, const N: usize> DeserializableSlice<N> for T where
    T: Serializable<N>,
    T::Error: BadLength,
 {
    fn from_slice(buf: &[u8]) -> (r: Result<Self, Self::Error>) {
        if buf.len() < N {
            Err(<Self::Error as BadLength>::bad_length(buf.len(), N))
        } else {
            let mut bytes = [0u8; N];
            let mut i: usize = 0;
            while i < N
                invariant
                    i <= N,
                    N <= buf@.len(),
                    bytes@.len() == N,
                    forall|k: int| 0 <= k < i ==> bytes@[k] == buf@[k],
                decreases N - i,
            {
                bytes[i] = *vstd::slice::slice_index_get(buf, i);
                i += 1;
            }
            proof {
                assert(bytes@ =~= buf@.take(N as int));
            }
            Self::from_bytes(&bytes)
        }
    }

    fn from_reader<R: Read>(reader: &mut R) -> (r: Result<Self, Self::Error>) {
        let mut bytes = [0u8; N];
        match reader.read(&mut bytes) {
            Ok(_) => {
                proof {
                    assert(bytes@ =~= old(reader).spec_data().take(N as int));
                }
                Self::from_bytes(&bytes)
            },
            Err(_) => Err(<Self::Error as BadLength>::bad_length(reader.capacity(), N)),
        }
    }
}

/// A byte sink: a cursor over a byte-addressable medium into which bytes can
/// be pushed sequentially. Writing fills a prefix of the remaining space; a
/// write larger than the remaining space fails without writing anything.
pub trait Write {
    /// The bytes of the writable space that remains, in order.
    spec fn spec_space(&self) -> Seq<u8>;

    /// Write all of `buf` into this sink, returning how many bytes were
    /// written and advancing the sink past them. If the sink has less space
    /// than `buf.len()`, fail with a length error reporting available versus
    /// requested, leaving the sink untouched.
    fn write(&mut self, buf: &[u8]) -> (r: Result<usize, Error>)
        ensures
            match r {
                Ok(n) => {
                    &&& n == buf@.len()
                    &&& n <= old(self).spec_space().len()
                    &&& final(self).spec_space() == old(self).spec_space().skip(n as int)
                },
                Err(e) => {
                    &&& old(self).spec_space().len() < buf@.len()
                    &&& e == (Error::BadLength {
                        found: old(self).spec_space().len() as usize,
                        expected: buf@.len() as usize,
                    })
                    &&& final(self).spec_space() == old(self).spec_space()
                },
            },
    ;
}

impl<'a> Write for &'a mut [u8] {
    open spec fn spec_space(&self) -> Seq<u8> {
        (**self)@
    }

    fn write(&mut self, buf: &[u8]) -> (r: Result<usize, Error>) {
        let available = self.len();
        let amt = buf.len();
        if amt > available {
            return Err(Error::BadLength { found: available, expected: amt });
        }
        let mut window: &'a mut [u8] = &mut [];
        core::mem::swap(self, &mut window);
        let (head, tail) = window.split_at_mut(amt);
        let mut i: usize = 0;
        while i < amt
            invariant
                i <= amt,
                amt == buf@.len(),
                amt == head@.len(),
            decreases amt - i,
        {
            head[i] = *vstd::slice::slice_index_get(buf, i);
            i += 1;
        }
        *self = tail;
        proof {
            assert((**self)@ =~= (**old(self))@.skip(amt as int));
        }
        Ok(amt)
    }
}

} // verus!
