//! Lenient decoding of the fixed-size, NUL-padded text fields that appear in
//! container headers, frame tags and metadata records.

use vstd::prelude::*;

verus! {

/// Index of the first NUL byte, or the length when there is none.
pub open spec fn first_nul(s: Seq<u8>) -> int
    decreases s.len(),
{
    if s.len() == 0 {
        0
    } else if s[0] == 0 {
        0
    } else {
        1 + first_nul(s.drop_first())
    }
}

/// A scan that saw no NUL in the first `i` bytes and then a NUL (or the end)
/// has found the first NUL.
pub proof fn lemma_first_nul_at(s: Seq<u8>, i: int)
    requires
        0 <= i <= s.len(),
        forall|j: int| 0 <= j < i ==> s[j] != 0,
        i < s.len() ==> s[i] == 0,
    ensures
        first_nul(s) == i,
    decreases i, s.len(),
{
    if s.len() == 0 {
    } else if i == 0 {
    } else {
        assert(s[0] != 0);
        lemma_first_nul_at(s.drop_first(), i - 1);
    }
}

/// Whether a byte is seven-bit ASCII.
pub open spec fn is_ascii_byte(b: u8) -> bool {
    b < 128
}

/// The ASCII-byte predicate, as a value handed to `Seq::filter`.
pub open spec fn ascii_pred() -> spec_fn(u8) -> bool {
    |b: u8| is_ascii_byte(b)
}

/// The lenient reading of a NUL-padded text field: the bytes before the first
/// NUL, with non-ASCII bytes dropped rather than treated as an error.
pub open spec fn lenient_ascii(s: Seq<u8>) -> Seq<u8> {
    s.take(first_nul(s)).filter(ascii_pred())
}

/// The characters of an all-ASCII byte sequence.
pub open spec fn ascii_chars(s: Seq<u8>) -> Seq<char> {
    s.map_values(|b: u8| b as char)
}

/// Start of the first aligned NUL-NUL byte pair of a sixteen-bit
/// little-endian text field, or the whole length when there is none.
pub open spec fn first_nul_pair(s: Seq<u8>) -> int
    decreases s.len(),
{
    if s.len() < 2 {
        s.len() as int
    } else if s[0] == 0 && s[1] == 0 {
        0
    } else {
        2 + first_nul_pair(s.skip(2))
    }
}

/// A scan that saw no aligned NUL pair before byte `p` and an aligned NUL
/// pair at `p` has found the first one.
pub proof fn lemma_first_nul_pair_found(s: Seq<u8>, p: int)
    requires
        0 <= p,
        p % 2 == 0,
        p + 2 <= s.len(),
        forall|q: int| 0 <= q < p && q % 2 == 0 ==> !(#[trigger] s[q] == 0 && s[q + 1] == 0),
        s[p] == 0 && s[p + 1] == 0,
    ensures
        first_nul_pair(s) == p,
    decreases p,
{
    if p == 0 {
    } else {
        assert(!(s[0] == 0 && s[1] == 0));
        assert forall|q: int| 0 <= q < p - 2 && q % 2 == 0 implies !(#[trigger] s.skip(2)[q] == 0
            && s.skip(2)[q + 1] == 0) by {
            assert(s.skip(2)[q] == s[q + 2]);
            assert(s.skip(2)[q + 1] == s[q + 3]);
            assert(!(s[q + 2] == 0 && s[q + 3] == 0));
        }
        assert(s.skip(2)[p - 2] == s[p]);
        assert(s.skip(2)[p - 1] == s[p + 1]);
        lemma_first_nul_pair_found(s.skip(2), p - 2);
    }
}

/// A scan that ran out of aligned pairs without meeting a NUL pair leaves the
/// whole field in place.
pub proof fn lemma_first_nul_pair_none(s: Seq<u8>, p: int)
    requires
        0 <= p,
        p % 2 == 0,
        p <= s.len() < p + 2,
        forall|q: int| 0 <= q < p && q % 2 == 0 ==> !(#[trigger] s[q] == 0 && s[q + 1] == 0),
    ensures
        first_nul_pair(s) == s.len(),
    decreases p,
{
    if p == 0 {
    } else {
        assert(!(s[0] == 0 && s[1] == 0));
        assert forall|q: int| 0 <= q < p - 2 && q % 2 == 0 implies !(#[trigger] s.skip(2)[q] == 0
            && s.skip(2)[q + 1] == 0) by {
            assert(s.skip(2)[q] == s[q + 2]);
            assert(s.skip(2)[q + 1] == s[q + 3]);
            assert(!(s[q + 2] == 0 && s[q + 3] == 0));
        }
        lemma_first_nul_pair_none(s.skip(2), p - 2);
    }
}

/// What the UTF-16LE decoder yields on a byte sequence when malformed units
/// are dropped rather than treated as an error.
pub uninterp spec fn utf16le_chars(s: Seq<u8>) -> Seq<char>;

/// Relies on encoding's ASCII decoder with `DecoderTrap::Ignore`: each byte
/// below 0x80 decodes to the character of the same value, every other byte is
/// dropped, and with this trap the decode cannot fail.
#[verifier::external_body]
fn decode_ascii_lossy(buffer: &Vec<u8>) -> (r: String)
    ensures
        r@ == ascii_chars(buffer@.filter(ascii_pred())),
{
    encoding::types::Encoding::decode(
        encoding::all::ASCII,
        &buffer[..],
        encoding::types::DecoderTrap::Ignore,
    ).unwrap_or_default()
}

/// Relies on encoding's UTF-16LE decoder with `DecoderTrap::Ignore`: the
/// result is a pure function of the input bytes, and with this trap the
/// decode cannot fail.
#[verifier::external_body]
fn decode_utf16le_lossy(buffer: &Vec<u8>) -> (r: String)
    ensures
        r@ == utf16le_chars(buffer@),
{
    encoding::types::Encoding::decode(
        encoding::all::UTF_16LE,
        &buffer[..],
        encoding::types::DecoderTrap::Ignore,
    ).unwrap_or_default()
}

/// Decode a NUL-padded ASCII text field: the bytes before the first NUL,
/// with non-ASCII bytes dropped rather than treated as an error.
pub fn read_ascii_string(buffer: &Vec<u8>) -> (r: String)
    ensures
        r@ == ascii_chars(lenient_ascii(buffer@)),
{
    let mut end: usize = 0;
    while end < buffer.len() && buffer[end] != 0
        invariant
            end <= buffer@.len(),
            forall|j: int| 0 <= j < end ==> buffer@[j] != 0,
        decreases buffer@.len() - end,
    {
        end = end + 1;
    }
    proof {
        lemma_first_nul_at(buffer@, end as int);
    }
    let mut prefix: Vec<u8> = Vec::new();
    let mut i: usize = 0;
    while i < end
        invariant
            i <= end <= buffer@.len(),
            prefix@ == buffer@.subrange(0, i as int),
        decreases end - i,
    {
        let b = buffer[i];
        prefix.push(b);
        i = i + 1;
        proof {
            assert(prefix@ =~= buffer@.subrange(0, i as int));
        }
    }
    proof {
        assert(prefix@ =~= buffer@.take(first_nul(buffer@)));
    }
    decode_ascii_lossy(&prefix)
}

/// Decode a NUL-padded UTF-16LE text field: the bytes before the first
/// aligned NUL-NUL unit, decoded with malformed units dropped.
pub fn read_utf_16le_string(buffer: &Vec<u8>) -> (r: String)
    ensures
        r@ == utf16le_chars(buffer@.take(first_nul_pair(buffer@))),
{
    let n = buffer.len();
    let mut p: usize = 0;
    while p + 1 < n
        invariant
            p % 2 == 0,
            p <= n == buffer@.len(),
            forall|q: int| 0 <= q < p && q % 2 == 0 ==> !(#[trigger] buffer@[q] == 0 && buffer@[q + 1] == 0),
        ensures
            p % 2 == 0,
            p <= n,
            forall|q: int| 0 <= q < p && q % 2 == 0 ==> !(#[trigger] buffer@[q] == 0 && buffer@[q + 1] == 0),
            p + 1 < n ==> buffer@[p as int] == 0 && buffer@[p + 1] == 0,
        decreases n - p,
    {
        if buffer[p] == 0 && buffer[p + 1] == 0 {
            break ;
        }
        p = p + 2;
    }
    let end: usize = if p + 1 < n {
        proof {
            lemma_first_nul_pair_found(buffer@, p as int);
        }
        p
    } else {
        proof {
            lemma_first_nul_pair_none(buffer@, p as int);
        }
        n
    };
    let mut prefix: Vec<u8> = Vec::new();
    let mut i: usize = 0;
    while i < end
        invariant
            i <= end <= buffer@.len(),
            prefix@ == buffer@.subrange(0, i as int),
        decreases end - i,
    {
        let b = buffer[i];
        prefix.push(b);
        i = i + 1;
        proof {
            assert(prefix@ =~= buffer@.subrange(0, i as int));
        }
    }
    proof {
        assert(prefix@ =~= buffer@.take(first_nul_pair(buffer@)));
    }
    decode_utf16le_lossy(&prefix)
}

} // verus!
