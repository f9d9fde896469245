//! The small DER reader that extracts a server's raw public key from the
//! SubjectPublicKeyInfo of its TLS certificate, for CredSSP.

use vstd::prelude::*;

verus! {

/// The big-endian value of a byte string.
pub open spec fn be_value(s: Seq<u8>) -> int
    decreases s.len(),
{
    if s.len() == 0 {
        0
    } else {
        be_value(s.drop_last()) * 256 + s.last() as int
    }
}

/// A DER length at `pos`: short form (one byte below 0x80) or long form (0x81..0x84
/// followed by 1 to 4 big-endian bytes). Gives the length and the position after it.
pub open spec fn der_length(der: Seq<u8>, pos: int) -> Option<(int, int)> {
    if pos < 0 || pos >= der.len() {
        None
    } else {
        let first = der[pos];
        if first < 0x80 {
            Some((first as int, pos + 1))
        } else {
            let n = first - 0x80;
            if n == 0 || n > 4 || pos + 1 + n > der.len() {
                None
            } else {
                Some((be_value(der.subrange(pos + 1, pos + 1 + n)), pos + 1 + n))
            }
        }
    }
}

/// Where the reader's cursor stands after reading a length at `pos`: past the
/// length on success; past its first byte when the long form is invalid.
pub open spec fn der_length_cursor(der: Seq<u8>, pos: int) -> int {
    if pos >= der.len() {
        pos
    } else {
        match der_length(der, pos) {
            Some((_, next)) => next,
            None => pos + 1,
        }
    }
}

proof fn lemma_be_value_bound(s: Seq<u8>)
    ensures
        0 <= be_value(s),
        s.len() <= 4 ==> be_value(s) < pow256(s.len() as int),
    decreases s.len(),
{
    if s.len() > 0 {
        lemma_be_value_bound(s.drop_last());
        if s.len() <= 4 {
            assert(be_value(s.drop_last()) * 256 + s.last() < pow256(s.len() as int)) by (nonlinear_arith)
                requires
                    be_value(s.drop_last()) < pow256(s.len() - 1),
                    pow256(s.len() as int) == pow256(s.len() - 1) * 256,
                    s.last() < 256,
            ;
        }
        assert(0 <= be_value(s.drop_last()) * 256) by (nonlinear_arith)
            requires 0 <= be_value(s.drop_last());
    }
}

/// 256 to the power `n`, for `n` up to 4.
pub open spec fn pow256(n: int) -> int {
    if n <= 0 {
        1
    } else if n == 1 {
        256
    } else if n == 2 {
        65536
    } else if n == 3 {
        16777216
    } else {
        4294967296
    }
}

/// Reads a DER length at `*cursor` and advances the cursor.
pub fn read_der_length(der: &[u8], cursor: &mut usize) -> (r: Option<usize>)
    ensures
        *final(cursor) == der_length_cursor(der@, *old(cursor) as int),
        r == match der_length(der@, *old(cursor) as int) {
            Some((len, _)) => Some(len as usize),
            None => None::<usize>,
        },
        r matches Some(len) ==> der_length(der@, *old(cursor) as int) matches Some((l, _)) && l == len,
{
    if *cursor >= der.len() {
        return None;
    }
    let first = der[*cursor];
    *cursor += 1;
    if first < 0x80 {
        Some(first as usize)
    } else {
        let n_bytes = (first & 0x7F) as usize;
        assert(first & 0x7F == first - 0x80) by (bit_vector)
            requires first >= 0x80;
        if n_bytes == 0 || n_bytes > 4 || n_bytes > der.len() - *cursor {
            return None;
        }
        let ghost start = *cursor as int;
        let mut len: u64 = 0;
        let mut k: usize = 0;
        while k < n_bytes
            invariant
                k <= n_bytes <= 4,
                0 <= start,
                start + n_bytes <= der@.len(),
                *cursor == start + k,
                len == be_value(der@.subrange(start, start + k)),
                len < pow256(k as int),
            decreases n_bytes - k,
        {
            let b = der[*cursor];
            let ghost prefix = der@.subrange(start, start + k);
            assert(der@.subrange(start, start + k + 1).drop_last() =~= prefix);
            assert(len * 256 + b < pow256(k as int + 1)) by (nonlinear_arith)
                requires len < pow256(k as int), pow256(k as int + 1) == pow256(k as int) * 256, b < 256;
            len = len * 256 + b as u64;
            *cursor += 1;
            k = k + 1;
        }
        assert(len < 4294967296);
        let ghost v = len;
        Some(len as usize)
    }
}

/// The outcome of reading a SubjectPublicKeyInfo the way the client does.
pub ghost enum SpkiOutcome {
    /// The bytes are not a SubjectPublicKeyInfo the reader accepts.
    Malformed,
    /// The raw public key is the bytes in [start, end).
    Key(int, int),
    /// The BIT STRING is empty: the reader would read past it.
    EmptyBitString,
}

/// Reads SEQUENCE { SEQUENCE algorithm, BIT STRING key }: the key is the BIT STRING
/// content after its unused-bits byte, which must be 0.
pub open spec fn spki_outcome(d: Seq<u8>) -> SpkiOutcome {
    if d.len() == 0 || d[0] != 0x30 {
        SpkiOutcome::Malformed
    } else {
        match der_length(d, 1) {
            None => SpkiOutcome::Malformed,
            Some((_, c1)) => if c1 >= d.len() || d[c1] != 0x30 {
                SpkiOutcome::Malformed
            } else {
                match der_length(d, c1 + 1) {
                    None => SpkiOutcome::Malformed,
                    Some((alg_len, c2)) => {
                        let c3 = c2 + alg_len;
                        if c3 >= d.len() || d[c3] != 0x03 {
                            SpkiOutcome::Malformed
                        } else {
                            match der_length(d, c3 + 1) {
                                None => SpkiOutcome::Malformed,
                                Some((bit_len, c4)) => if c4 + bit_len > d.len() {
                                    SpkiOutcome::Malformed
                                } else if c4 < d.len() && d[c4] != 0 {
                                    SpkiOutcome::Malformed
                                } else if bit_len == 0 {
                                    SpkiOutcome::EmptyBitString
                                } else {
                                    SpkiOutcome::Key(c4 + 1, c4 + bit_len)
                                },
                            }
                        }
                    },
                }
            }
        }
    }
}

/// Where a SubjectPublicKeyInfo holds its raw public key, as [`locate_raw_public_key`] finds it.
#[derive(Clone, Copy, Debug, PartialEq, Eq, Structural)]
pub enum RawKeyLocation {
    Malformed,
    Key { start: usize, end: usize },
    EmptyBitString,
}

impl RawKeyLocation {
    pub open spec fn outcome(self) -> SpkiOutcome {
        match self {
            RawKeyLocation::Malformed => SpkiOutcome::Malformed,
            RawKeyLocation::Key { start, end } => SpkiOutcome::Key(start as int, end as int),
            RawKeyLocation::EmptyBitString => SpkiOutcome::EmptyBitString,
        }
    }
}

/// Walks SEQUENCE { SEQUENCE algorithm, BIT STRING key } and locates the raw key.
pub fn locate_raw_public_key(d: &[u8]) -> (r: RawKeyLocation)
    ensures
        r.outcome() == spki_outcome(d@),
        r matches RawKeyLocation::Key { start, end } ==> 0 < start <= end <= d@.len(),
{
    let mut cursor: usize = 0;
    if cursor >= d.len() || d[cursor] != 0x30 {
        return RawKeyLocation::Malformed;
    }
    cursor += 1;
    let _seq_len = match read_der_length(d, &mut cursor) {
        Some(l) => l,
        None => return RawKeyLocation::Malformed,
    };
    if cursor >= d.len() || d[cursor] != 0x30 {
        return RawKeyLocation::Malformed;
    }
    cursor += 1;
    let alg_len = match read_der_length(d, &mut cursor) {
        Some(l) => l,
        None => return RawKeyLocation::Malformed,
    };
    // Skip the AlgorithmIdentifier.
    if alg_len >= d.len() - cursor {
        return RawKeyLocation::Malformed;
    }
    cursor += alg_len;
    if d[cursor] != 0x03 {
        return RawKeyLocation::Malformed;
    }
    cursor += 1;
    let bit_str_len = match read_der_length(d, &mut cursor) {
        Some(l) => l,
        None => return RawKeyLocation::Malformed,
    };
    if cursor > d.len() || bit_str_len > d.len() - cursor {
        return RawKeyLocation::Malformed;
    }
    // The BIT STRING value starts with the number of unused bits, which must be 0.
    if cursor < d.len() && d[cursor] != 0 {
        return RawKeyLocation::Malformed;
    }
    if bit_str_len == 0 {
        return RawKeyLocation::EmptyBitString;
    }
    RawKeyLocation::Key { start: cursor + 1, end: cursor + bit_str_len }
}

/// A copy of the bytes `d[start..end]`.
pub fn copy_range(d: &[u8], start: usize, end: usize) -> (r: Vec<u8>)
    requires
        start <= end <= d@.len(),
    ensures
        r@ == d@.subrange(start as int, end as int),
{
    let mut r: Vec<u8> = Vec::new();
    let mut i: usize = start;
    while i < end
        invariant
            start <= i <= end <= d@.len(),
            r@ == d@.subrange(start as int, i as int),
        decreases end - i,
    {
        r.push(d[i]);
        i = i + 1;
        assert(r@ =~= d@.subrange(start as int, i as int));
    }
    r
}

/// Extracts the raw public key from a DER SubjectPublicKeyInfo.
pub fn extract_raw_public_key(spki_der: &[u8]) -> (r: Option<Vec<u8>>)
    requires
        !(spki_outcome(spki_der@) is EmptyBitString),
    ensures
        spki_outcome(spki_der@) is Malformed <==> r is None,
        r matches Some(v) ==> spki_outcome(spki_der@) matches SpkiOutcome::Key(s, e) && 0 < s <= e <= spki_der@.len()
            && v@ == spki_der@.subrange(s, e),
{
    match locate_raw_public_key(spki_der) {
        RawKeyLocation::Key { start, end } => Some(copy_range(spki_der, start, end)),
        _ => None,
    }
}

} // verus!
