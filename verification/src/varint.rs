//! Unsigned LEB128 variable-length integers: the length prefix of every
//! frame on the wire, and the encoding of the integer fields of the
//! concrete message schemas.

use vstd::prelude::*;

verus! {

/// The LEB128 encoding of `n`: base-128 digits, least significant first,
/// the high bit set on every byte but the last.
pub open spec fn varint_encoding(n: u64) -> Seq<u8>
    decreases n,
{
    if n < 128 {
        seq![n as u8]
    } else {
        seq![(n % 128 + 128) as u8] + varint_encoding(n / 128)
    }
}

/// Reads a LEB128 integer from the front of `s`: the (unbounded) value and
/// the number of bytes consumed, or `None` if `s` ends before a byte with
/// the high bit clear appears.
pub open spec fn varint_decoding(s: Seq<u8>) -> Option<(nat, int)>
    decreases s.len(),
{
    if s.len() == 0 {
        None
    } else if s[0] < 128 {
        Some((s[0] as nat, 1))
    } else {
        match varint_decoding(s.skip(1)) {
            Some((v, k)) => Some(((s[0] - 128) as nat + 128 * v, k + 1)),
            None => None,
        }
    }
}

/// A successful varint read consumes at least one byte and at most all of `s`.
pub proof fn lemma_varint_decoding_bounds(s: Seq<u8>)
    ensures
        varint_decoding(s) matches Some((v, k)) ==> 1 <= k <= s.len(),
    decreases s.len(),
{
    if s.len() > 0 && s[0] >= 128 {
        lemma_varint_decoding_bounds(s.skip(1));
    }
}

/// Decoding undoes encoding, whatever bytes follow the varint on the stream.
pub proof fn lemma_varint_round_trip(n: u64, rest: Seq<u8>)
    ensures
        varint_decoding(varint_encoding(n) + rest) == Some(
            (n as nat, varint_encoding(n).len() as int),
        ),
    decreases n,
{
    let s = varint_encoding(n) + rest;
    if n < 128 {
        assert(s[0] == n as u8);
    } else {
        lemma_varint_round_trip(n / 128, rest);
        assert(s.skip(1) =~= varint_encoding(n / 128) + rest);
        assert(s[0] == (n % 128 + 128) as u8);
        assert((s[0] - 128) as nat + 128 * ((n / 128) as nat) == n as nat);
    }
}

/// Why an exec varint read stopped short of a value.
#[derive(Clone, Copy, PartialEq, Eq, Structural, Debug)]
pub enum VarintError {
    /// The input ended while the high bit of the last byte seen was still set.
    Incomplete,
    /// The encoded value does not fit in 64 bits.
    Overflow,
}

/// Appends the LEB128 encoding of `n` to `out`.
pub fn encode_varint(n: u64, out: &mut Vec<u8>)
    ensures
        final(out)@ == old(out)@ + varint_encoding(n),
    decreases n,
{
    if n < 128 {
        out.push(n as u8);
        assert(out@ =~= old(out)@ + varint_encoding(n));
    } else {
        out.push((n % 128 + 128) as u8);
        encode_varint(n / 128, out);
        assert(out@ =~= old(out)@ + varint_encoding(n));
    }
}

/// Reads a LEB128 integer from `bytes` starting at `pos`; on success returns
/// the value and the position of the first byte after it.
pub fn decode_varint(bytes: &Vec<u8>, pos: usize) -> (r: Result<(u64, usize), VarintError>)
    requires
        pos <= bytes.len(),
    ensures
        match r {
            Ok((n, end)) => varint_decoding(bytes@.skip(pos as int)) == Some(
                (n as nat, end - pos),
            ) && pos < end <= bytes.len(),
            Err(VarintError::Incomplete) => varint_decoding(bytes@.skip(pos as int)) is None,
            Err(VarintError::Overflow) => varint_decoding(bytes@.skip(pos as int)) matches Some(
                (v, k),
            ) && v > u64::MAX,
        },
    decreases bytes.len() - pos,
{
    if pos == bytes.len() {
        return Err(VarintError::Incomplete);
    }
    let b = bytes[pos];
    if b < 128 {
        Ok((b as u64, pos + 1))
    } else {
        let low = (b - 128) as u64;
        match decode_varint(bytes, pos + 1) {
            Err(e) => {
                proof {
                    assert(bytes@.skip(pos as int).skip(1) =~= bytes@.skip(pos + 1 as int));
                }
                Err(e)
            },
            Ok((v, end)) => {
                proof {
                    assert(bytes@.skip(pos as int).skip(1) =~= bytes@.skip(pos + 1 as int));
                }
                if v <= (u64::MAX - low) / 128 {
                    Ok((low + 128 * v, end))
                } else {
                    Err(VarintError::Overflow)
                }
            },
        }
    }
}

} // verus!
