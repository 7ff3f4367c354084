//! The wire form of a lemma: its 32-byte hashes back to back, with no count.
use crate::path::CodecError;
use vstd::arithmetic::div_mod::lemma_fundamental_div_mod_converse;
use vstd::prelude::*;

verus! {

/// Bytes in one hash.
pub const DIGEST_LEN: usize = 32;

/// The bytes of each hash.
pub open spec fn hashes_view(v: Seq<[u8; 32]>) -> Seq<Seq<u8>> {
    v.map_values(|h: [u8; 32]| h@)
}

/// Every item is 32 bytes long.
pub open spec fn all_digests(hs: Seq<Seq<u8>>) -> bool {
    forall|k: int| 0 <= k < hs.len() ==> (#[trigger] hs[k]).len() == 32
}

/// The hashes concatenated in order.
pub open spec fn lemma_encoding(hs: Seq<Seq<u8>>) -> Seq<u8> {
    Seq::new(32 * hs.len(), |i: int| hs[i / 32][i % 32])
}

/// The hashes that bytes hold, or `None` when their number is not a
/// multiple of 32.
pub open spec fn lemma_decoding(bytes: Seq<u8>) -> Option<Seq<Seq<u8>>> {
    if bytes.len() % 32 != 0 {
        None
    } else {
        Some(Seq::new(bytes.len() / 32, |k: int| bytes.subrange(32 * k, 32 * k + 32)))
    }
}

proof fn lemma_split_index(k: int, j: int)
    requires
        0 <= k,
        0 <= j < 32,
    ensures
        (32 * k + j) / 32 == k,
        (32 * k + j) % 32 == j,
{
    lemma_fundamental_div_mod_converse(32 * k + j, 32, k, j);
}

/// Decoding concatenated hashes gives back the same hashes.
pub proof fn lemma_hashes_round_trip(hs: Seq<Seq<u8>>)
    requires
        all_digests(hs),
    ensures
        lemma_decoding(lemma_encoding(hs)) == Some(hs),
{
    let e = lemma_encoding(hs);
    lemma_split_index(hs.len() as int, 0);
    let d = Seq::new(e.len() / 32, |k: int| e.subrange(32 * k, 32 * k + 32));
    assert forall|k: int| 0 <= k < hs.len() implies d[k] == hs[k] by {
        assert forall|j: int| 0 <= j < 32 implies d[k][j] == hs[k][j] by {
            lemma_split_index(k, j);
            assert(32 * k + j < 32 * hs.len()) by (nonlinear_arith)
                requires
                    0 <= j < 32,
                    0 <= k < hs.len(),
            ;
        }
        assert(d[k] =~= hs[k]);
    }
    assert(d =~= hs);
}

/// The hashes of a Merkle proof: the leaf, the siblings from the bottom up,
/// then the root.
pub struct EvidenceLemma(Vec<[u8; 32]>);

impl EvidenceLemma {
    pub closed spec fn view(&self) -> Seq<Seq<u8>> {
        hashes_view(self.0@)
    }

    /// Holds the given hashes.
    pub fn from_hashes(hashes: Vec<[u8; 32]>) -> (r: EvidenceLemma)
        ensures
            r@ == hashes_view(hashes@),
    {
        EvidenceLemma(hashes)
    }

    /// Splits bytes into 32-byte hashes; fails when their number is not a
    /// multiple of 32.
    pub fn from_bytes(bytes: &[u8]) -> (r: Result<EvidenceLemma, CodecError>)
        ensures
            match lemma_decoding(bytes@) {
                Some(hs) => r matches Ok(l) && l@ == hs,
                None => r == Err::<EvidenceLemma, CodecError>(CodecError::Misaligned),
            },
    {
        if bytes.len() % DIGEST_LEN != 0 {
            return Err(CodecError::Misaligned);
        }
        let n: usize = bytes.len() / DIGEST_LEN;
        let ghost want = Seq::new(n as nat, |k: int| bytes@.subrange(32 * k, 32 * k + 32));
        let mut out: Vec<[u8; 32]> = Vec::new();
        let mut k: usize = 0;
        while k < n
            invariant
                n == bytes@.len() / 32,
                bytes@.len() % 32 == 0,
                k <= n,
                want.len() == n,
                forall|m: int| 0 <= m < n ==> #[trigger] want[m] == bytes@.subrange(32 * m, 32 * m + 32),
                hashes_view(out@) =~= want.subrange(0, k as int),
            decreases n - k,
        {
            assert(32 * k + 32 <= bytes.len()) by (nonlinear_arith)
                requires
                    k < n,
                    n == bytes@.len() / 32,
                    bytes@.len() % 32 == 0,
            ;
            let mut h = [0u8; 32];
            let mut j: usize = 0;
            while j < DIGEST_LEN
                invariant
                    32 * k + 32 <= bytes@.len(),
                    bytes@.len() <= usize::MAX,
                    j <= 32,
                    h@.len() == 32,
                    forall|m: int| 0 <= m < j ==> h@[m] == #[trigger] bytes@[32 * k + m],
                decreases 32 - j,
            {
                h[j] = bytes[32 * k + j];
                j = j + 1;
            }
            assert forall|m: int| 0 <= m < 32 implies h@[m] == bytes@.subrange(
                32 * k as int,
                32 * k + 32,
            )[m] by {
                assert(h@[m] == bytes@[32 * k + m]);
            }
            assert(h@ =~= bytes@.subrange(32 * k as int, 32 * k + 32));
            let ghost before = out@;
            out.push(h);
            assert(hashes_view(out@) =~= hashes_view(before).push(h@));
            assert(want[k as int] == h@);
            k = k + 1;
            assert(hashes_view(out@) =~= want.subrange(0, k as int));
        }
        assert(want =~= want.subrange(0, n as int));
        Ok(EvidenceLemma(out))
    }

    /// The hashes concatenated, 32 bytes each.
    pub fn to_bytes(&self) -> (r: Vec<u8>)
        requires
            32 * self@.len() <= usize::MAX,
        ensures
            r@ == lemma_encoding(self@),
    {
        let n: usize = self.0.len();
        let ghost hs = self@;
        let mut out: Vec<u8> = Vec::new();
        let mut k: usize = 0;
        while k < n
            invariant
                n == hs.len(),
                hs == hashes_view(self.0@),
                32 * n <= usize::MAX,
                k <= n,
                out@.len() == 32 * k,
                forall|i: int| 0 <= i < 32 * k ==> #[trigger] out@[i] == hs[i / 32][i % 32],
            decreases n - k,
        {
            let h: [u8; 32] = self.0[k];
            let mut j: usize = 0;
            while j < DIGEST_LEN
                invariant
                    k < n,
                    n == hs.len(),
                    hs[k as int] == h@,
                    32 * n <= usize::MAX,
                    j <= 32,
                    out@.len() == 32 * k + j,
                    forall|i: int| 0 <= i < 32 * k + j ==> #[trigger] out@[i] == hs[i / 32][i % 32],
                decreases 32 - j,
            {
                proof {
                    lemma_split_index(k as int, j as int);
                }
                out.push(h[j]);
                j = j + 1;
            }
            k = k + 1;
        }
        assert(out@ =~= lemma_encoding(hs));
        out
    }

    /// The hashes.
    pub fn lemma(self) -> (r: Vec<[u8; 32]>)
        ensures
            hashes_view(r@) == self@,
    {
        self.0
    }
}

} // verus!
