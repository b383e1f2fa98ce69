use crate::errors::Error;
use crate::serialize::Serializable;
use vstd::bytes::lemma_auto_spec_u128_to_from_le_bytes;
use vstd::bytes::lemma_auto_spec_u16_to_from_le_bytes;
use vstd::bytes::lemma_auto_spec_u32_to_from_le_bytes;
use vstd::bytes::lemma_auto_spec_u64_to_from_le_bytes;
use vstd::bytes::spec_u128_from_le_bytes;
use vstd::bytes::spec_u128_to_le_bytes;
use vstd::bytes::spec_u16_from_le_bytes;
use vstd::bytes::spec_u16_to_le_bytes;
use vstd::bytes::spec_u32_from_le_bytes;
use vstd::bytes::spec_u32_to_le_bytes;
use vstd::bytes::spec_u64_from_le_bytes;
use vstd::bytes::spec_u64_to_le_bytes;
use vstd::bytes::u128_from_le_bytes;
use vstd::bytes::u128_to_le_bytes;
use vstd::bytes::u16_from_le_bytes;
use vstd::bytes::u16_to_le_bytes;
use vstd::bytes::u32_from_le_bytes;
use vstd::bytes::u32_to_le_bytes;
use vstd::bytes::u64_from_le_bytes;
use vstd::bytes::u64_to_le_bytes;
use vstd::prelude::*;

verus! {

// Every primitive codec below uses the designated byte order of this crate:
// least-significant-byte first. Decoding a primitive never fails, since every
// bit pattern of the right width is a valid value.
impl Serializable<1> for u8 {
    type Error = Error;

    open spec fn spec_to_bytes(&self) -> Seq<u8> {
        seq![*self]
    }

    open spec fn spec_from_bytes(s: Seq<u8>) -> Option<Self> {
        Some(s[0])
    }

    proof fn lemma_round_trip(&self) {
    }

    fn to_bytes(&self) -> (r: [u8; 1]) {
        let r = [*self];
        proof {
            assert(r@ =~= self.spec_to_bytes());
        }
        r
    }

    fn from_bytes(buf: &[u8; 1]) -> (r: Result<Self, Self::Error>) {
        Ok(buf[0])
    }
}

impl Serializable<2> for u16 {
    type Error = Error;

    open spec fn spec_to_bytes(&self) -> Seq<u8> {
        spec_u16_to_le_bytes(*self)
    }

    open spec fn spec_from_bytes(s: Seq<u8>) -> Option<Self> {
        Some(spec_u16_from_le_bytes(s))
    }

    proof fn lemma_round_trip(&self) {
        lemma_auto_spec_u16_to_from_le_bytes();
        let s = spec_u16_to_le_bytes(*self);
        assert(s.len() == 2 && spec_u16_from_le_bytes(s) == *self);
    }

    fn to_bytes(&self) -> (r: [u8; 2]) {
        let v = u16_to_le_bytes(*self);
        let r = [v[0], v[1]];
        proof {
            assert(r@ =~= self.spec_to_bytes());
        }
        r
    }

    fn from_bytes(buf: &[u8; 2]) -> (r: Result<Self, Self::Error>) {
        Ok(u16_from_le_bytes(buf.as_slice()))
    }
}

impl Serializable<4> for u32 {
    type Error = Error;

    open spec fn spec_to_bytes(&self) -> Seq<u8> {
        spec_u32_to_le_bytes(*self)
    }

    open spec fn spec_from_bytes(s: Seq<u8>) -> Option<Self> {
        Some(spec_u32_from_le_bytes(s))
    }

    proof fn lemma_round_trip(&self) {
        lemma_auto_spec_u32_to_from_le_bytes();
        let s = spec_u32_to_le_bytes(*self);
        assert(s.len() == 4 && spec_u32_from_le_bytes(s) == *self);
    }

    fn to_bytes(&self) -> (r: [u8; 4]) {
        let v = u32_to_le_bytes(*self);
        let r = [v[0], v[1], v[2], v[3]];
        proof {
            assert(r@ =~= self.spec_to_bytes());
        }
        r
    }

    fn from_bytes(buf: &[u8; 4]) -> (r: Result<Self, Self::Error>) {
        Ok(u32_from_le_bytes(buf.as_slice()))
    }
}

impl Serializable<8> for u64 {
    type Error = Error;

    open spec fn spec_to_bytes(&self) -> Seq<u8> {
        spec_u64_to_le_bytes(*self)
    }

    open spec fn spec_from_bytes(s: Seq<u8>) -> Option<Self> {
        Some(spec_u64_from_le_bytes(s))
    }

    proof fn lemma_round_trip(&self) {
        lemma_auto_spec_u64_to_from_le_bytes();
        let s = spec_u64_to_le_bytes(*self);
        assert(s.len() == 8 && spec_u64_from_le_bytes(s) == *self);
    }

    fn to_bytes(&self) -> (r: [u8; 8]) {
        let v = u64_to_le_bytes(*self);
        let r = [v[0], v[1], v[2], v[3], v[4], v[5], v[6], v[7]];
        proof {
            assert(r@ =~= self.spec_to_bytes());
        }
        r
    }

    fn from_bytes(buf: &[u8; 8]) -> (r: Result<Self, Self::Error>) {
        Ok(u64_from_le_bytes(buf.as_slice()))
    }
}

impl Serializable<16> for u128 {
    type Error = Error;

    open spec fn spec_to_bytes(&self) -> Seq<u8> {
        spec_u128_to_le_bytes(*self)
    }

    open spec fn spec_from_bytes(s: Seq<u8>) -> Option<Self> {
        Some(spec_u128_from_le_bytes(s))
    }

    proof fn lemma_round_trip(&self) {
        lemma_auto_spec_u128_to_from_le_bytes();
        let s = spec_u128_to_le_bytes(*self);
        assert(s.len() == 16 && spec_u128_from_le_bytes(s) == *self);
    }

    fn to_bytes(&self) -> (r: [u8; 16]) {
        let v = u128_to_le_bytes(*self);
        let r = [
            v[0],
            v[1],
            v[2],
            v[3],
            v[4],
            v[5],
            v[6],
            v[7],
            v[8],
            v[9],
            v[10],
            v[11],
            v[12],
            v[13],
            v[14],
            v[15],
        ];
        proof {
            assert(r@ =~= self.spec_to_bytes());
        }
        r
    }

    fn from_bytes(buf: &[u8; 16]) -> (r: Result<Self, Self::Error>) {
        Ok(u128_from_le_bytes(buf.as_slice()))
    }
}

impl Serializable<1> for i8 {
    type Error = Error;

    open spec fn spec_to_bytes(&self) -> Seq<u8> {
        seq![*self as u8]
    }

    open spec fn spec_from_bytes(s: Seq<u8>) -> Option<Self> {
        Some(s[0] as i8)
    }

    proof fn lemma_round_trip(&self) {
        let x = *self;
        assert((x as u8) as i8 == x) by (bit_vector);
    }

    fn to_bytes(&self) -> (r: [u8; 1]) {
        let r = [#[verifier::truncate] (*self as u8)];
        proof {
            assert(r@ =~= self.spec_to_bytes());
        }
        r
    }

    fn from_bytes(buf: &[u8; 1]) -> (r: Result<Self, Self::Error>) {
        Ok(#[verifier::truncate] (buf[0] as i8))
    }
}

impl Serializable<2> for i16 {
    type Error = Error;

    open spec fn spec_to_bytes(&self) -> Seq<u8> {
        spec_u16_to_le_bytes(*self as u16)
    }

    open spec fn spec_from_bytes(s: Seq<u8>) -> Option<Self> {
        Some(spec_u16_from_le_bytes(s) as i16)
    }

    proof fn lemma_round_trip(&self) {
        lemma_auto_spec_u16_to_from_le_bytes();
        let x = *self;
        let s = spec_u16_to_le_bytes(x as u16);
        assert(s.len() == 2 && spec_u16_from_le_bytes(s) == x as u16);
        assert((x as u16) as i16 == x) by (bit_vector);
    }

    fn to_bytes(&self) -> (r: [u8; 2]) {
        let v = u16_to_le_bytes(#[verifier::truncate] (*self as u16));
        let r = [v[0], v[1]];
        proof {
            assert(r@ =~= self.spec_to_bytes());
        }
        r
    }

    fn from_bytes(buf: &[u8; 2]) -> (r: Result<Self, Self::Error>) {
        Ok(#[verifier::truncate] (u16_from_le_bytes(buf.as_slice()) as i16))
    }
}

impl Serializable<4> for i32 {
    type Error = Error;

    open spec fn spec_to_bytes(&self) -> Seq<u8> {
        spec_u32_to_le_bytes(*self as u32)
    }

    open spec fn spec_from_bytes(s: Seq<u8>) -> Option<Self> {
        Some(spec_u32_from_le_bytes(s) as i32)
    }

    proof fn lemma_round_trip(&self) {
        lemma_auto_spec_u32_to_from_le_bytes();
        let x = *self;
        let s = spec_u32_to_le_bytes(x as u32);
        assert(s.len() == 4 && spec_u32_from_le_bytes(s) == x as u32);
        assert((x as u32) as i32 == x) by (bit_vector);
    }

    fn to_bytes(&self) -> (r: [u8; 4]) {
        let v = u32_to_le_bytes(#[verifier::truncate] (*self as u32));
        let r = [v[0], v[1], v[2], v[3]];
        proof {
            assert(r@ =~= self.spec_to_bytes());
        }
        r
    }

    fn from_bytes(buf: &[u8; 4]) -> (r: Result<Self, Self::Error>) {
        Ok(#[verifier::truncate] (u32_from_le_bytes(buf.as_slice()) as i32))
    }
}

impl Serializable<8> for i64 {
    type Error = Error;

    open spec fn spec_to_bytes(&self) -> Seq<u8> {
        spec_u64_to_le_bytes(*self as u64)
    }

    open spec fn spec_from_bytes(s: Seq<u8>) -> Option<Self> {
        Some(spec_u64_from_le_bytes(s) as i64)
    }

    proof fn lemma_round_trip(&self) {
        lemma_auto_spec_u64_to_from_le_bytes();
        let x = *self;
        let s = spec_u64_to_le_bytes(x as u64);
        assert(s.len() == 8 && spec_u64_from_le_bytes(s) == x as u64);
        assert((x as u64) as i64 == x) by (bit_vector);
    }

    fn to_bytes(&self) -> (r: [u8; 8]) {
        let v = u64_to_le_bytes(#[verifier::truncate] (*self as u64));
        let r = [v[0], v[1], v[2], v[3], v[4], v[5], v[6], v[7]];
        proof {
            assert(r@ =~= self.spec_to_bytes());
        }
        r
    }

    fn from_bytes(buf: &[u8; 8]) -> (r: Result<Self, Self::Error>) {
        Ok(#[verifier::truncate] (u64_from_le_bytes(buf.as_slice()) as i64))
    }
}

impl Serializable<16> for i128 {
    type Error = Error;

    open spec fn spec_to_bytes(&self) -> Seq<u8> {
        spec_u128_to_le_bytes(*self as u128)
    }

    open spec fn spec_from_bytes(s: Seq<u8>) -> Option<Self> {
        Some(spec_u128_from_le_bytes(s) as i128)
    }

    proof fn lemma_round_trip(&self) {
        lemma_auto_spec_u128_to_from_le_bytes();
        let x = *self;
        let s = spec_u128_to_le_bytes(x as u128);
        assert(s.len() == 16 && spec_u128_from_le_bytes(s) == x as u128);
        assert((x as u128) as i128 == x) by (bit_vector);
    }

    fn to_bytes(&self) -> (r: [u8; 16]) {
        let v = u128_to_le_bytes(#[verifier::truncate] (*self as u128));
        let r = [
            v[0],
            v[1],
            v[2],
            v[3],
            v[4],
            v[5],
            v[6],
            v[7],
            v[8],
            v[9],
            v[10],
            v[11],
            v[12],
            v[13],
            v[14],
            v[15],
        ];
        proof {
            assert(r@ =~= self.spec_to_bytes());
        }
        r
    }

    fn from_bytes(buf: &[u8; 16]) -> (r: Result<Self, Self::Error>) {
        Ok(#[verifier::truncate] (u128_from_le_bytes(buf.as_slice()) as i128))
    }
}

} // verus!
