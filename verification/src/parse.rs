use crate::errors::BadLength;
use crate::errors::InvalidChar;
use crate::serialize::Serializable;
use vstd::prelude::*;
use vstd::slice::slice_index_get;
use vstd::string::StringSliceAdditionalSpecFns;

verus! {

/// Whether `b` is the ASCII code of a hexadecimal digit, `[0-9a-fA-F]`
/// (codes 48 to 57, 97 to 102 and 65 to 70).
pub open spec fn is_hex_digit(b: u8) -> bool {
    (48 <= b <= 57) || (97 <= b <= 102) || (65 <= b <= 70)
}

/// The 4-bit value of the hexadecimal digit with ASCII code `b`; zero for a
/// byte outside the hexadecimal alphabet.
pub open spec fn nibble_value(b: u8) -> u8 {
    if 48 <= b <= 57 {
        (b - 48) as u8
    } else if 97 <= b <= 102 {
        (b - 97 + 10) as u8
    } else if 65 <= b <= 70 {
        (b - 65 + 10) as u8
    } else {
        0
    }
}

/// The byte encoded by the hexadecimal digit pair `(hi, lo)`.
pub open spec fn hex_byte(hi: u8, lo: u8) -> u8 {
    (nibble_value(hi) * 16 + nibble_value(lo)) as u8
}

/// The `n` bytes encoded by the first `2 * n` bytes of `s`, read as
/// hexadecimal digit pairs, high nibble first.
pub open spec fn spec_hex_decode(s: Seq<u8>, n: int) -> Seq<u8> {
    Seq::new(n as nat, |j: int| hex_byte(s[2 * j], s[2 * j + 1]))
}

/// The position of the first byte among `s[i..n]` that is not a hexadecimal
/// digit, or `n` if all of them are.
pub open spec fn first_non_hex_from(s: Seq<u8>, i: int, n: int) -> int
    recommends
        0 <= i <= n <= s.len(),
    decreases n - i,
{
    if i >= n {
        n
    } else if !is_hex_digit(s[i]) {
        i
    } else {
        first_non_hex_from(s, i + 1, n)
    }
}

/// The position of the first byte among `s[..n]` that is not a hexadecimal
/// digit, or `n` if all of them are.
pub open spec fn first_non_hex(s: Seq<u8>, n: int) -> int {
    first_non_hex_from(s, 0, n)
}

/// Pins down `first_non_hex_from`: a scan that saw hexadecimal digits on
/// `s[i..m]` and, if `m < n`, a non-digit at `m`, has found position `m`.
proof fn lemma_first_non_hex_from(s: Seq<u8>, i: int, n: int, m: int)
    requires
        0 <= i <= m <= n <= s.len(),
        forall|k: int| i <= k < m ==> is_hex_digit(s[k]),
        m < n ==> !is_hex_digit(s[m]),
    ensures
        first_non_hex_from(s, i, n) == if m < n {
            m
        } else {
            n
        },
    decreases m - i,
{
    if i < m {
        lemma_first_non_hex_from(s, i + 1, n, m);
    }
}

/// If every byte among `s[..n]` is a hexadecimal digit, the scan finds none.
pub proof fn lemma_all_hex(s: Seq<u8>, n: int)
    requires
        0 <= n <= s.len(),
        forall|k: int| 0 <= k < n ==> is_hex_digit(s[k]),
    ensures
        first_non_hex(s, n) == n,
{
    lemma_first_non_hex_from(s, 0, n, n);
}

/// The hex char-error law: in an input whose first `n` bytes are hexadecimal
/// digits except for the single position `i`, the scan reports exactly `i`,
/// so hexadecimal parsing fails with a character error naming `s[i]` and
/// `i`.
pub proof fn lemma_single_non_hex(s: Seq<u8>, n: int, i: int)
    requires
        0 <= i < n <= s.len(),
        !is_hex_digit(s[i]),
        forall|k: int| 0 <= k < n && k != i ==> is_hex_digit(s[k]),
    ensures
        first_non_hex(s, n) == i,
{
    lemma_first_non_hex_from(s, 0, n, i);
}

/// Decode one hexadecimal digit: map an ASCII byte in `[0-9a-fA-F]` to its
/// 4-bit value; any other byte is not a valid hexadecimal digit.
fn val(c: u8) -> (r: Option<u8>)
    ensures
        r is Some <==> is_hex_digit(c),
        is_hex_digit(c) ==> r == Some(nibble_value(c)) && nibble_value(c) < 16,
{
    if c >= 65 && c <= 70 {
        Some(c - 65 + 10)
    } else if c >= 97 && c <= 102 {
        Some(c - 97 + 10)
    } else if c >= 48 && c <= 57 {
        Some(c - 48)
    } else {
        None
    }
}

/// The digit pair at position `j` of `s` lies within the first `n` bytes and
/// both of its bytes are hexadecimal digits.
pub open spec fn hex_pair_at(s: Seq<u8>, n: int, j: int) -> bool {
    2 * j + 1 < n && is_hex_digit(s[2 * j]) && is_hex_digit(s[2 * j + 1])
}

/// Parse a byte string of hexadecimal digits (e.g. `b"fe12c6"`) into bytes
/// (e.g. `[0xfe, 0x12, 0xc6]`). Digit pairs are decoded until either the
/// input or the output is exhausted: a smaller destination truncates the
/// value, a bigger destination is padded with zeroes. The input is meant to
/// be a literal, so a malformed digit among the decoded pairs is a programmer
/// error and is excluded up front rather than reported at run time.
pub fn hex<const N: usize, const M: usize>(bytes: &[u8; N]) -> (r: [u8; M])
    requires
        forall|j: int| 0 <= j < M && 2 * j < N ==> #[trigger] hex_pair_at(bytes@, N as int, j),
    ensures
        forall|j: int| 0 <= j < M && 2 * j < N ==> r@[j] == hex_byte(bytes@[2 * j], bytes@[2 * j + 1]),
        forall|j: int| 0 <= j < M && 2 * j >= N ==> r@[j] == 0,
{
    let mut buffer = [0u8; M];
    let mut i: usize = 0;
    let mut j: usize = 0;
    while i < N && j < M
        invariant
            0 <= j <= M,
            i == 2 * j,
            2 * j <= N + 1,
            buffer@.len() == M,
            forall|k: int| 0 <= k < M && 2 * k < N ==> #[trigger] hex_pair_at(bytes@, N as int, k),
            forall|k: int| 0 <= k < j ==> buffer@[k] == hex_byte(bytes@[2 * k], bytes@[2 * k + 1]),
            forall|k: int| j <= k < M ==> buffer@[k] == 0,
        decreases N - i,
    {
        proof {
            assert(hex_pair_at(bytes@, N as int, j as int));
        }
        let hi = bytes[i];
        let lo = bytes[i + 1];
        let h = val(hi).unwrap();
        let l = val(lo).unwrap();
        buffer[j] = h * 16 + l;
        i += 2;
        j += 1;
    }
    buffer
}

/// Runtime hexadecimal parsing, automatically available to every
/// [`Serializable`] type whose error type implements both
/// [`BadLength`] and [`InvalidChar`].
pub trait ParseHexStr<const N: usize>: Serializable<N> where
    Self::Error: BadLength + InvalidChar,
 {
    /// Parse a value from the first `2 * N` bytes of `s`, read as
    /// hexadecimal digit pairs, high nibble first; bytes beyond the first
    /// `2 * N` are ignored and not validated. If `s` holds fewer than
    /// `2 * N` bytes, fail with a length error; otherwise, if one of the
    /// scanned bytes is not a hexadecimal digit, fail with a character error
    /// reporting the first such byte and its position; otherwise delegate
    /// the decoded `N` bytes to the fixed-size conversion.
    fn from_hex_str(s: &str) -> (r: Result<Self, Self::Error>)
        requires
            2 * N <= usize::MAX,
        ensures
            s.spec_bytes().len() < 2 * N ==> r == Err::<Self, Self::Error>(
                Self::Error::spec_bad_length(s.spec_bytes().len() as usize, (2 * N) as usize),
            ),
            s.spec_bytes().len() >= 2 * N && first_non_hex(s.spec_bytes(), 2 * N) < 2 * N ==> r
                == Err::<Self, Self::Error>(
                Self::Error::spec_invalid_char(
                    s.spec_bytes()[first_non_hex(s.spec_bytes(), 2 * N)] as char,
                    first_non_hex(s.spec_bytes(), 2 * N) as usize,
                ),
            ),
            s.spec_bytes().len() >= 2 * N && first_non_hex(s.spec_bytes(), 2 * N) == 2 * N
                ==> match r {
                Ok(v) => Self::spec_from_bytes(spec_hex_decode(s.spec_bytes(), N as int))
                    == Some(v),
                Err(_) => Self::spec_from_bytes(spec_hex_decode(s.spec_bytes(), N as int))
                    is None,
            },
    ;
}

impl<T, const N: usize> ParseHexStr<N> for T where T: Serializable<N>, T::Error: BadLength + InvalidChar {
    fn from_hex_str(s: &str) -> (r: Result<Self, Self::Error>) {
        let b = s.as_bytes();
        let expected = 2 * N;
        if b.len() < expected {
            return Err(<Self::Error as BadLength>::bad_length(b.len(), expected));
        }
        let mut bytes = [0u8; N];
        let mut j: usize = 0;
        while j < N
            invariant
                0 <= j <= N,
                2 * N <= usize::MAX,
                b@ == s.spec_bytes(),
                b@.len() >= 2 * N,
                bytes@.len() == N,
                forall|k: int| 0 <= k < 2 * j ==> is_hex_digit(b@[k]),
                forall|k: int| 0 <= k < j ==> bytes@[k] == hex_byte(b@[2 * k], b@[2 * k + 1]),
            decreases N - j,
        {
            let hi = *slice_index_get(b, 2 * j);
            let lo = *slice_index_get(b, 2 * j + 1);
            match (val(hi), val(lo)) {
                (Some(h), Some(l)) => {
                    bytes[j] = h * 16 + l;
                },
                (None, _) => {
                    proof {
                        lemma_first_non_hex_from(b@, 0, 2 * N as int, 2 * j as int);
                    }
                    return Err(<Self::Error as InvalidChar>::invalid_char(hi as char, 2 * j));
                },
                (_, None) => {
                    proof {
                        lemma_first_non_hex_from(b@, 0, 2 * N as int, 2 * j + 1 as int);
                    }
                    return Err(
                        <Self::Error as InvalidChar>::invalid_char(lo as char, 2 * j + 1),
                    );
                },
            }
            j += 1;
        }
        proof {
            lemma_first_non_hex_from(b@, 0, 2 * N as int, 2 * N as int);
            assert(bytes@ =~= spec_hex_decode(b@, N as int));
        }
        Self::from_bytes(&bytes)
    }
}

} // verus!
