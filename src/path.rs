//! The bit-packed wire form of a Merkle path: a 16-bit big-endian bit count,
//! then the bits, most significant bit first, zero-padded in the last byte.
use vstd::prelude::*;

verus! {

/// Why bytes could not be read as, or written from, proof data.
#[derive(Debug, Clone, Copy, PartialEq, Eq, Structural)]
pub enum CodecError {
    /// Fewer bytes than a declared length requires.
    Truncated,
    /// A hash list whose byte length is not a multiple of 32.
    Misaligned,
    /// A length that does not fit its 16-bit prefix.
    InvalidLength,
}

/// The largest number that a 16-bit length prefix holds.
pub const MAX_PREFIXED: usize = 65535;

/// The two big-endian bytes of a 16-bit length.
pub open spec fn be16(n: nat) -> Seq<u8> {
    seq![(n / 256) as u8, (n % 256) as u8]
}

/// The number a big-endian pair of bytes stands for.
pub open spec fn be16_value(hi: u8, lo: u8) -> nat {
    hi as nat * 256 + lo as nat
}

/// Bytes needed for `n` packed bits.
pub open spec fn packed_len(n: nat) -> nat {
    (n + 7) / 8
}

/// The bit at `i`, with every position past the end read as zero.
pub open spec fn bit_at(bits: Seq<bool>, i: int) -> bool {
    0 <= i < bits.len() && bits[i]
}

/// Eight bits packed into a byte, the first one most significant.
pub open spec fn pack_bits(
    b0: bool,
    b1: bool,
    b2: bool,
    b3: bool,
    b4: bool,
    b5: bool,
    b6: bool,
    b7: bool,
) -> u8 {
    (if b0 { 0x80u8 } else { 0u8 }) | (if b1 { 0x40u8 } else { 0u8 }) | (if b2 { 0x20u8 } else {
        0u8
    }) | (if b3 { 0x10u8 } else { 0u8 }) | (if b4 { 0x08u8 } else { 0u8 }) | (if b5 { 0x04u8 } else {
        0u8
    }) | (if b6 { 0x02u8 } else { 0u8 }) | (if b7 { 0x01u8 } else { 0u8 })
}

/// The `k`-th byte of the packed bits.
pub open spec fn packed_byte(bits: Seq<bool>, k: int) -> u8 {
    pack_bits(
        bit_at(bits, 8 * k),
        bit_at(bits, 8 * k + 1),
        bit_at(bits, 8 * k + 2),
        bit_at(bits, 8 * k + 3),
        bit_at(bits, 8 * k + 4),
        bit_at(bits, 8 * k + 5),
        bit_at(bits, 8 * k + 6),
        bit_at(bits, 8 * k + 7),
    )
}

/// The mask of bit `j` of a byte, counted from the most significant one.
pub open spec fn bit_mask(j: int) -> u8 {
    if j == 0 {
        0x80u8
    } else if j == 1 {
        0x40u8
    } else if j == 2 {
        0x20u8
    } else if j == 3 {
        0x10u8
    } else if j == 4 {
        0x08u8
    } else if j == 5 {
        0x04u8
    } else if j == 6 {
        0x02u8
    } else {
        0x01u8
    }
}

/// Bit `j` of `b`, counted from the most significant one.
pub open spec fn byte_bit(b: u8, j: int) -> bool {
    b & bit_mask(j) != 0u8
}

/// The encoded form of a path.
pub open spec fn path_encoding(bits: Seq<bool>) -> Seq<u8> {
    be16(bits.len()) + Seq::new(packed_len(bits.len()), |k: int| packed_byte(bits, k))
}

/// The bit count that an encoded path declares.
pub open spec fn declared_bits(bytes: Seq<u8>) -> nat {
    be16_value(bytes[0], bytes[1])
}

/// The path that bytes hold, or `None` when they are too short for it.
pub open spec fn path_decoding(bytes: Seq<u8>) -> Option<Seq<bool>> {
    if bytes.len() < 2 || bytes.len() < 2 + packed_len(declared_bits(bytes)) {
        None
    } else {
        Some(Seq::new(declared_bits(bytes), |i: int| byte_bit(bytes[2 + i / 8], i % 8)))
    }
}

proof fn lemma_pack_bits(b0: bool, b1: bool, b2: bool, b3: bool, b4: bool, b5: bool, b6: bool, b7: bool)
    ensures
        byte_bit(pack_bits(b0, b1, b2, b3, b4, b5, b6, b7), 0) == b0,
        byte_bit(pack_bits(b0, b1, b2, b3, b4, b5, b6, b7), 1) == b1,
        byte_bit(pack_bits(b0, b1, b2, b3, b4, b5, b6, b7), 2) == b2,
        byte_bit(pack_bits(b0, b1, b2, b3, b4, b5, b6, b7), 3) == b3,
        byte_bit(pack_bits(b0, b1, b2, b3, b4, b5, b6, b7), 4) == b4,
        byte_bit(pack_bits(b0, b1, b2, b3, b4, b5, b6, b7), 5) == b5,
        byte_bit(pack_bits(b0, b1, b2, b3, b4, b5, b6, b7), 6) == b6,
        byte_bit(pack_bits(b0, b1, b2, b3, b4, b5, b6, b7), 7) == b7,
{
    let p = pack_bits(b0, b1, b2, b3, b4, b5, b6, b7);
    assert(p == (if b0 { 0x80u8 } else { 0u8 }) | (if b1 { 0x40u8 } else { 0u8 }) | (if b2 { 0x20u8 } else {
        0u8
    }) | (if b3 { 0x10u8 } else { 0u8 }) | (if b4 { 0x08u8 } else { 0u8 }) | (if b5 { 0x04u8 } else {
        0u8
    }) | (if b6 { 0x02u8 } else { 0u8 }) | (if b7 { 0x01u8 } else { 0u8 }));
    assert(((p & 0x80u8) != 0u8) == b0 && ((p & 0x40u8) != 0u8) == b1 && ((p & 0x20u8) != 0u8) == b2
        && ((p & 0x10u8) != 0u8) == b3 && ((p & 0x08u8) != 0u8) == b4 && ((p & 0x04u8) != 0u8) == b5
        && ((p & 0x02u8) != 0u8) == b6 && ((p & 0x01u8) != 0u8) == b7) by (bit_vector)
        requires
            p == (if b0 { 0x80u8 } else { 0u8 }) | (if b1 { 0x40u8 } else { 0u8 }) | (if b2 { 0x20u8 } else {
                0u8
            }) | (if b3 { 0x10u8 } else { 0u8 }) | (if b4 { 0x08u8 } else { 0u8 }) | (if b5 { 0x04u8 } else {
                0u8
            }) | (if b6 { 0x02u8 } else { 0u8 }) | (if b7 { 0x01u8 } else { 0u8 }),
    ;
}

/// Decoding an encoded path gives back the same bits, whatever their number
/// up to what the 16-bit count holds.
pub proof fn lemma_path_round_trip(bits: Seq<bool>)
    requires
        bits.len() <= MAX_PREFIXED,
    ensures
        path_decoding(path_encoding(bits)) == Some(bits),
{
    let e = path_encoding(bits);
    let n = bits.len();
    assert(e[0] == (n / 256) as u8 && e[1] == (n % 256) as u8);
    assert(declared_bits(e) == n);
    let d = Seq::new(n, |i: int| byte_bit(e[2 + i / 8], i % 8));
    assert forall|i: int| 0 <= i < n implies d[i] == bits[i] by {
        let k = i / 8;
        assert(0 <= k < packed_len(n));
        assert(e[2 + k] == packed_byte(bits, k));
        lemma_pack_bits(
            bit_at(bits, 8 * k),
            bit_at(bits, 8 * k + 1),
            bit_at(bits, 8 * k + 2),
            bit_at(bits, 8 * k + 3),
            bit_at(bits, 8 * k + 4),
            bit_at(bits, 8 * k + 5),
            bit_at(bits, 8 * k + 6),
            bit_at(bits, 8 * k + 7),
        );
        assert(i == 8 * k + i % 8);
    }
    assert(d =~= bits);
}


/// A path in its wire form, as written by [`EvidencePath::from_bits`] or as
/// received from a peer.
pub struct EvidencePath(Vec<u8>);

fn bit_or_zero(bits: &Vec<bool>, i: usize) -> (r: bool)
    ensures
        r == bit_at(bits@, i as int),
{
    i < bits.len() && bits[i]
}

fn pack_byte(b0: bool, b1: bool, b2: bool, b3: bool, b4: bool, b5: bool, b6: bool, b7: bool) -> (r: u8)
    ensures
        r == pack_bits(b0, b1, b2, b3, b4, b5, b6, b7),
{
    (if b0 { 0x80u8 } else { 0u8 }) | (if b1 { 0x40u8 } else { 0u8 }) | (if b2 { 0x20u8 } else {
        0u8
    }) | (if b3 { 0x10u8 } else { 0u8 }) | (if b4 { 0x08u8 } else { 0u8 }) | (if b5 { 0x04u8 } else {
        0u8
    }) | (if b6 { 0x02u8 } else { 0u8 }) | (if b7 { 0x01u8 } else { 0u8 })
}

fn mask_of(j: usize) -> (r: u8)
    requires
        j < 8,
    ensures
        r == bit_mask(j as int),
{
    if j == 0 {
        0x80u8
    } else if j == 1 {
        0x40u8
    } else if j == 2 {
        0x20u8
    } else if j == 3 {
        0x10u8
    } else if j == 4 {
        0x08u8
    } else if j == 5 {
        0x04u8
    } else if j == 6 {
        0x02u8
    } else {
        0x01u8
    }
}

impl EvidencePath {
    pub closed spec fn view(&self) -> Seq<u8> {
        self.0@
    }

    /// Encodes a path: the bit count, then the packed bits in the fewest
    /// bytes. A path longer than a 16-bit count holds is refused.
    pub fn from_bits(bits: Vec<bool>) -> (r: Result<EvidencePath, CodecError>)
        ensures
            bits@.len() <= MAX_PREFIXED ==> (r matches Ok(p) && p@ == path_encoding(bits@)),
            bits@.len() > MAX_PREFIXED ==> r == Err::<EvidencePath, CodecError>(CodecError::InvalidLength),
    {
        let n = bits.len();
        if n > MAX_PREFIXED {
            return Err(CodecError::InvalidLength);
        }
        let mut out: Vec<u8> = Vec::new();
        out.push((n / 256) as u8);
        out.push((n % 256) as u8);
        let nbytes: usize = (n + 7) / 8;
        let mut k: usize = 0;
        while k < nbytes
            invariant
                n == bits@.len(),
                n <= MAX_PREFIXED,
                nbytes == packed_len(n as nat),
                k <= nbytes,
                out@ == be16(n as nat) + Seq::new(k as nat, |j: int| packed_byte(bits@, j)),
            decreases nbytes - k,
        {
            let b = pack_byte(
                bit_or_zero(&bits, 8 * k),
                bit_or_zero(&bits, 8 * k + 1),
                bit_or_zero(&bits, 8 * k + 2),
                bit_or_zero(&bits, 8 * k + 3),
                bit_or_zero(&bits, 8 * k + 4),
                bit_or_zero(&bits, 8 * k + 5),
                bit_or_zero(&bits, 8 * k + 6),
                bit_or_zero(&bits, 8 * k + 7),
            );
            out.push(b);
            k = k + 1;
            assert(out@ =~= be16(n as nat) + Seq::new(k as nat, |j: int| packed_byte(bits@, j)));
        }
        Ok(EvidencePath(out))
    }

    /// Takes bytes as an encoded path, unchecked until [`EvidencePath::path`].
    pub fn from_bytes(bytes: &[u8]) -> (r: EvidencePath)
        ensures
            r@ == bytes@,
    {
        EvidencePath(vstd::slice::slice_to_vec(bytes))
    }

    /// The encoded bytes.
    pub fn to_bytes(&self) -> (r: Vec<u8>)
        ensures
            r@ == self@,
    {
        self.0.clone()
    }

    /// Decodes the bits: exactly as many as the count declares, the padding
    /// of the last byte dropped. Fails when the bytes are fewer than the count
    /// requires.
    pub fn path(&self) -> (r: Result<Vec<bool>, CodecError>)
        ensures
            match path_decoding(self@) {
                Some(bits) => r matches Ok(v) && v@ == bits,
                None => r == Err::<Vec<bool>, CodecError>(CodecError::Truncated),
            },
    {
        let bytes = &self.0;
        if bytes.len() < 2 {
            return Err(CodecError::Truncated);
        }
        let count: usize = (bytes[0] as usize) * 256 + (bytes[1] as usize);
        if bytes.len() - 2 < (count + 7) / 8 {
            return Err(CodecError::Truncated);
        }
        let ghost want = Seq::new(count as nat, |i: int| byte_bit(bytes@[2 + i / 8], i % 8));
        let mut out: Vec<bool> = Vec::new();
        let mut i: usize = 0;
        while i < count
            invariant
                bytes@ == self@,
                count == declared_bits(self@),
                2 + packed_len(count as nat) <= bytes@.len(),
                i <= count,
                want.len() == count,
                forall|m: int| 0 <= m < count ==> #[trigger] want[m] == byte_bit(bytes@[2 + m / 8], m % 8),
                out@ == want.subrange(0, i as int),
            decreases count - i,
        {
            let byte = bytes[2 + i / 8];
            let bit = byte & mask_of(i % 8) != 0;
            out.push(bit);
            i = i + 1;
            assert(out@ =~= want.subrange(0, i as int));
        }
        assert(out@ =~= want);
        Ok(out)
    }
}

/// Path bits for the wire from flags that mark each level where the running
/// node is the left child: on the wire such a level is `false`, so each flag
/// is negated.
pub fn path_from_left_flags(flags: &[bool]) -> (r: Vec<bool>)
    ensures
        r@.len() == flags@.len(),
        forall|i: int| 0 <= i < flags@.len() ==> r@[i] == !flags@[i],
{
    let mut out: Vec<bool> = Vec::new();
    let mut i: usize = 0;
    while i < flags.len()
        invariant
            i <= flags@.len(),
            out@.len() == i,
            forall|m: int| 0 <= m < i ==> out@[m] == !flags@[m],
        decreases flags@.len() - i,
    {
        out.push(!flags[i]);
        i = i + 1;
    }
    out
}

} // verus!
