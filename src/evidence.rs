//! A Merkle inclusion proof: its wire form and its verification.
use crate::digest::{sha256, sha256_of};
use crate::lemma::{
    all_digests, hashes_view, lemma_decoding, lemma_encoding, lemma_hashes_round_trip,
    EvidenceLemma,
};
use crate::path::{
    be16, be16_value, lemma_path_round_trip, path_decoding, path_encoding, CodecError,
    EvidencePath, MAX_PREFIXED,
};
use vstd::prelude::*;

verus! {

/// Why a proof could not be checked at all.
#[derive(Debug, Clone, Copy, PartialEq, Eq, Structural)]
pub enum VerifyError {
    /// The lemma does not hold exactly two more hashes than the path has bits.
    LengthInvariantViolated,
}

/// The lengths fit their 16-bit prefixes.
pub open spec fn proof_fits(bits: Seq<bool>, hs: Seq<Seq<u8>>) -> bool {
    bits.len() <= MAX_PREFIXED && 32 * hs.len() <= MAX_PREFIXED
}

/// The wire form of a proof: the encoded path and the encoded lemma, each
/// after its own 16-bit length.
pub open spec fn proof_encoding(bits: Seq<bool>, hs: Seq<Seq<u8>>) -> Seq<u8> {
    let p = path_encoding(bits);
    let l = lemma_encoding(hs);
    be16(p.len()) + p + be16(l.len()) + l
}

/// The proof that bytes hold, or why they hold none.
pub open spec fn proof_decoding(b: Seq<u8>) -> Result<(Seq<bool>, Seq<Seq<u8>>), CodecError> {
    if b.len() < 2 {
        Err(CodecError::Truncated)
    } else {
        let p = be16_value(b[0], b[1]) as int;
        if b.len() < 4 + p {
            Err(CodecError::Truncated)
        } else {
            let l = be16_value(b[2 + p], b[3 + p]) as int;
            if b.len() < 4 + p + l {
                Err(CodecError::Truncated)
            } else {
                match path_decoding(b.subrange(2, 2 + p)) {
                    None => Err(CodecError::Truncated),
                    Some(bits) => match lemma_decoding(b.subrange(4 + p, 4 + p + l)) {
                        None => Err(CodecError::Misaligned),
                        Some(hs) => Ok((bits, hs)),
                    },
                }
            }
        }
    }
}

/// The parent of two nodes: the digest of the left one followed by the right.
pub open spec fn node_hash(left: Seq<u8>, right: Seq<u8>) -> Seq<u8> {
    sha256_of(left + right)
}

/// The node reached from the leaf `lemma[0]` after `n` levels: at level `i`
/// the sibling `lemma[i + 1]` goes on the right where `path[i]` is false and
/// on the left where it is true.
pub open spec fn climb(lemma: Seq<Seq<u8>>, path: Seq<bool>, n: nat) -> Seq<u8>
    decreases n,
{
    if n == 0 {
        lemma[0]
    } else {
        let current = climb(lemma, path, (n - 1) as nat);
        let sibling = lemma[n as int];
        if path[n - 1] {
            node_hash(sibling, current)
        } else {
            node_hash(current, sibling)
        }
    }
}

/// The outcome of verifying a proof: an error where the lengths disagree,
/// else whether the climb from the leaf ends at the last hash.
pub open spec fn verdict(path: Seq<bool>, lemma: Seq<Seq<u8>>) -> Result<bool, VerifyError> {
    if lemma.len() != path.len() + 2 {
        Err(VerifyError::LengthInvariantViolated)
    } else {
        Ok(climb(lemma, path, path.len()) == lemma[lemma.len() - 1])
    }
}

/// A path and its lemma.
pub struct EvidenceProof {
    path: Vec<bool>,
    lemma: Vec<[u8; 32]>,
}

fn same_digest(a: &[u8; 32], b: &[u8; 32]) -> (r: bool)
    ensures
        r == (a@ == b@),
{
    let mut i: usize = 0;
    while i < 32
        invariant
            i <= 32,
            forall|m: int| 0 <= m < i ==> a@[m] == b@[m],
        decreases 32 - i,
    {
        if a[i] != b[i] {
            return false;
        }
        i = i + 1;
    }
    assert(a@ =~= b@);
    true
}

fn parent(left: &[u8; 32], right: &[u8; 32]) -> (r: [u8; 32])
    ensures
        r@ == node_hash(left@, right@),
{
    let mut joined: Vec<u8> = Vec::new();
    let mut i: usize = 0;
    while i < 32
        invariant
            i <= 32,
            joined@ == left@.subrange(0, i as int),
        decreases 32 - i,
    {
        joined.push(left[i]);
        i = i + 1;
        assert(joined@ =~= left@.subrange(0, i as int));
    }
    let mut j: usize = 0;
    while j < 32
        invariant
            j <= 32,
            joined@ == left@ + right@.subrange(0, j as int),
        decreases 32 - j,
    {
        joined.push(right[j]);
        j = j + 1;
        assert(joined@ =~= left@ + right@.subrange(0, j as int));
    }
    assert(joined@ =~= left@ + right@);
    sha256(joined.as_slice())
}

fn copy_hashes(hashes: &Vec<[u8; 32]>) -> (r: Vec<[u8; 32]>)
    ensures
        r@ == hashes@,
{
    let mut out: Vec<[u8; 32]> = Vec::new();
    let mut k: usize = 0;
    while k < hashes.len()
        invariant
            k <= hashes@.len(),
            out@ == hashes@.subrange(0, k as int),
        decreases hashes@.len() - k,
    {
        out.push(hashes[k]);
        k = k + 1;
        assert(out@ =~= hashes@.subrange(0, k as int));
    }
    assert(out@ =~= hashes@);
    out
}

impl EvidenceProof {
    pub closed spec fn path_bits(&self) -> Seq<bool> {
        self.path@
    }

    pub closed spec fn lemma_hashes(&self) -> Seq<Seq<u8>> {
        hashes_view(self.lemma@)
    }

    /// Pairs a path with its lemma.
    pub fn new(path: Vec<bool>, lemma: Vec<[u8; 32]>) -> (r: EvidenceProof)
        ensures
            r.path_bits() == path@,
            r.lemma_hashes() == hashes_view(lemma@),
    {
        EvidenceProof { path, lemma }
    }

    /// The wire form; fails where a length does not fit its 16-bit prefix.
    pub fn to_bytes(&self) -> (r: Result<Vec<u8>, CodecError>)
        ensures
            proof_fits(self.path_bits(), self.lemma_hashes()) ==> (r matches Ok(v) && v@
                == proof_encoding(self.path_bits(), self.lemma_hashes())),
            !proof_fits(self.path_bits(), self.lemma_hashes()) ==> r == Err::<Vec<u8>, CodecError>(
                CodecError::InvalidLength,
            ),
    {
        if self.lemma.len() > MAX_PREFIXED / 32 {
            return Err(CodecError::InvalidLength);
        }
        let bits = self.path.clone();
        assert(bits@ =~= self.path@);
        let path = match EvidencePath::from_bits(bits) {
            Ok(p) => p,
            Err(e) => {
                return Err(e);
            },
        };
        let hashes = copy_hashes(&self.lemma);
        let lemma = EvidenceLemma::from_hashes(hashes);
        assert(lemma@ == self.lemma_hashes());
        let mut path_bytes = path.to_bytes();
        let mut lemma_bytes = lemma.to_bytes();
        let pn = path_bytes.len();
        let ln = lemma_bytes.len();
        let mut out: Vec<u8> = Vec::new();
        out.push((pn / 256) as u8);
        out.push((pn % 256) as u8);
        out.append(&mut path_bytes);
        out.push((ln / 256) as u8);
        out.push((ln % 256) as u8);
        out.append(&mut lemma_bytes);
        assert(out@ =~= proof_encoding(self.path_bits(), self.lemma_hashes()));
        Ok(out)
    }

    /// Reads a proof from its wire form. Fails with `Truncated` where a
    /// declared length runs past the bytes, and with `Misaligned` where the
    /// lemma's bytes are not whole hashes.
    pub fn from_bytes(bytes: &[u8]) -> (r: Result<EvidenceProof, CodecError>)
        ensures
            match proof_decoding(bytes@) {
                Ok((bits, hs)) => r matches Ok(p) && p.path_bits() == bits && p.lemma_hashes() == hs,
                Err(e) => r == Err::<EvidenceProof, CodecError>(e),
            },
    {
        let n = bytes.len();
        if n < 2 {
            return Err(CodecError::Truncated);
        }
        let p: usize = (bytes[0] as usize) * 256 + (bytes[1] as usize);
        if n < 4 + p {
            return Err(CodecError::Truncated);
        }
        let l: usize = (bytes[2 + p] as usize) * 256 + (bytes[3 + p] as usize);
        if n < 4 + p + l {
            return Err(CodecError::Truncated);
        }
        let path = EvidencePath::from_bytes(vstd::slice::slice_subrange(bytes, 2, 2 + p));
        let bits = match path.path() {
            Ok(b) => b,
            Err(e) => {
                return Err(e);
            },
        };
        let lemma = match EvidenceLemma::from_bytes(
            vstd::slice::slice_subrange(bytes, 4 + p, 4 + p + l),
        ) {
            Ok(h) => h,
            Err(e) => {
                return Err(e);
            },
        };
        Ok(EvidenceProof { path: bits, lemma: lemma.lemma() })
    }

    /// Climbs from the leaf through the siblings as the path directs and
    /// tells whether it ends at the root, the lemma's last hash. A lemma
    /// whose length is not the path's plus two is refused before any hashing.
    pub fn valid(&self) -> (r: Result<bool, VerifyError>)
        ensures
            r == verdict(self.path_bits(), self.lemma_hashes()),
    {
        let n = self.path.len();
        let m = self.lemma.len();
        if m < 2 || m - 2 != n {
            return Err(VerifyError::LengthInvariantViolated);
        }
        let ghost hs = self.lemma_hashes();
        let mut current: [u8; 32] = self.lemma[0];
        let mut i: usize = 0;
        while i < n
            invariant
                n == self.path@.len(),
                m == n + 2,
                m == self.lemma@.len(),
                hs == hashes_view(self.lemma@),
                i <= n,
                current@ == climb(hs, self.path@, i as nat),
            decreases n - i,
        {
            let sibling: [u8; 32] = self.lemma[i + 1];
            if self.path[i] {
                current = parent(&sibling, &current);
            } else {
                current = parent(&current, &sibling);
            }
            i = i + 1;
        }
        Ok(same_digest(&current, &self.lemma[m - 1]))
    }
}

/// Decoding an encoded proof gives back the same path and lemma, wherever the
/// lengths fit their prefixes and every hash is 32 bytes.
pub proof fn lemma_proof_round_trip(bits: Seq<bool>, hs: Seq<Seq<u8>>)
    requires
        proof_fits(bits, hs),
        all_digests(hs),
    ensures
        proof_decoding(proof_encoding(bits, hs)) == Ok::<(Seq<bool>, Seq<Seq<u8>>), CodecError>(
            (bits, hs),
        ),
{
    let pe = path_encoding(bits);
    let le = lemma_encoding(hs);
    let b = proof_encoding(bits, hs);
    let p = pe.len() as int;
    let l = le.len() as int;
    assert(p <= MAX_PREFIXED);
    assert(b[0] == (p / 256) as u8 && b[1] == (p % 256) as u8);
    assert(be16_value(b[0], b[1]) == p);
    assert(b[2 + p] == (l / 256) as u8 && b[3 + p] == (l % 256) as u8);
    assert(be16_value(b[2 + p], b[3 + p]) == l);
    assert(b.subrange(2, 2 + p) =~= pe);
    assert(b.subrange(4 + p, 4 + p + l) =~= le);
    lemma_path_round_trip(bits);
    lemma_hashes_round_trip(hs);
}

/// On a two-level proof, with the path going right then left, the verdict is
/// whether `H(s1 ++ H(leaf ++ s0))` is the root.
pub proof fn lemma_two_level_verdict(leaf: Seq<u8>, s0: Seq<u8>, s1: Seq<u8>, root: Seq<u8>)
    ensures
        verdict(seq![false, true], seq![leaf, s0, s1, root]) == Ok::<bool, VerifyError>(
            sha256_of(s1 + sha256_of(leaf + s0)) == root,
        ),
{
    let path = seq![false, true];
    let lemma = seq![leaf, s0, s1, root];
    assert(climb(lemma, path, 0) == leaf);
    assert(climb(lemma, path, 1) == sha256_of(leaf + s0));
    assert(climb(lemma, path, 2) == sha256_of(s1 + sha256_of(leaf + s0)));
}

/// A proof whose lemma does not hold exactly two more hashes than its path
/// has bits is refused.
pub proof fn lemma_length_mismatch_refused(path: Seq<bool>, lemma: Seq<Seq<u8>>)
    requires
        lemma.len() != path.len() + 2,
    ensures
        verdict(path, lemma) == Err::<bool, VerifyError>(VerifyError::LengthInvariantViolated),
{
}

/// Two different byte strings with the same SHA-256 digest exist.
pub open spec fn sha256_collision_exists() -> bool {
    exists|x: Seq<u8>, y: Seq<u8>| x != y && sha256_of(x) == sha256_of(y)
}

proof fn lemma_prefix_cancels(s: Seq<u8>, a: Seq<u8>, b: Seq<u8>)
    requires
        s + a == s + b,
    ensures
        a == b,
{
    assert(a =~= (s + a).subrange(s.len() as int, (s + a).len() as int));
    assert(b =~= (s + b).subrange(s.len() as int, (s + b).len() as int));
}

proof fn lemma_suffix_cancels(a: Seq<u8>, b: Seq<u8>, s: Seq<u8>)
    requires
        a + s == b + s,
    ensures
        a == b,
{
    assert((a + s).len() == (b + s).len());
    assert(a =~= (a + s).subrange(0, a.len() as int));
    assert(b =~= (b + s).subrange(0, b.len() as int));
}

proof fn lemma_climb_same_prefix(
    l1: Seq<Seq<u8>>,
    p1: Seq<bool>,
    l2: Seq<Seq<u8>>,
    p2: Seq<bool>,
    m: nat,
)
    requires
        m <= p1.len(),
        m <= p2.len(),
        m < l1.len(),
        m < l2.len(),
        forall|t: int| 0 <= t < m ==> p1[t] == p2[t],
        forall|t: int| 0 <= t <= m ==> l1[t] == l2[t],
    ensures
        climb(l1, p1, m) == climb(l2, p2, m),
    decreases m,
{
    if m > 0 {
        lemma_climb_same_prefix(l1, p1, l2, p2, (m - 1) as nat);
    }
}

proof fn lemma_diverged_climbs_collide(
    l1: Seq<Seq<u8>>,
    p1: Seq<bool>,
    l2: Seq<Seq<u8>>,
    p2: Seq<bool>,
    k: nat,
)
    requires
        p1.len() == p2.len(),
        l1.len() == p1.len() + 2,
        l2.len() == p2.len() + 2,
        k <= p1.len(),
        forall|t: int| k <= t < p1.len() ==> p1[t] == p2[t] && l1[t + 1] == l2[t + 1],
        climb(l1, p1, k) != climb(l2, p2, k),
        climb(l1, p1, p1.len()) == climb(l2, p2, p2.len()),
    ensures
        sha256_collision_exists(),
    decreases p1.len() - k,
{
    let c1 = climb(l1, p1, k);
    let c2 = climb(l2, p2, k);
    let s = l1[k as int + 1];
    assert(p1[k as int] == p2[k as int] && l2[k as int + 1] == s);
    let x = if p1[k as int] { s + c1 } else { c1 + s };
    let y = if p1[k as int] { s + c2 } else { c2 + s };
    if x == y {
        if p1[k as int] {
            lemma_prefix_cancels(s, c1, c2);
        } else {
            lemma_suffix_cancels(c1, c2, s);
        }
    }
    assert(climb(l1, p1, k + 1) == sha256_of(x));
    assert(climb(l2, p2, k + 1) == sha256_of(y));
    if sha256_of(x) == sha256_of(y) {
        assert(x != y && sha256_of(x) == sha256_of(y));
    } else {
        assert forall|t: int| (k + 1) as nat <= t < p1.len() implies p1[t] == p2[t] && l1[t + 1]
            == l2[t + 1] by {
            assert(k <= t);
        }
        lemma_diverged_climbs_collide(l1, p1, l2, p2, k + 1);
    }
}

/// A proof that verifies still verifies after one of its siblings is
/// replaced by other bytes only where SHA-256 has a collision.
pub proof fn lemma_tampered_sibling_needs_collision(
    path: Seq<bool>,
    lemma: Seq<Seq<u8>>,
    j: int,
    forged: Seq<u8>,
)
    requires
        verdict(path, lemma) == Ok::<bool, VerifyError>(true),
        1 <= j <= path.len(),
        forged != lemma[j],
        verdict(path, lemma.update(j, forged)) == Ok::<bool, VerifyError>(true),
    ensures
        sha256_collision_exists(),
{
    let l2 = lemma.update(j, forged);
    let n = path.len() as int;
    lemma_climb_same_prefix(lemma, path, l2, path, (j - 1) as nat);
    let c = climb(lemma, path, (j - 1) as nat);
    let s1 = lemma[j];
    let x = if path[j - 1] { s1 + c } else { c + s1 };
    let y = if path[j - 1] { forged + c } else { c + forged };
    if x == y {
        if path[j - 1] {
            lemma_suffix_cancels(s1, forged, c);
        } else {
            lemma_prefix_cancels(c, s1, forged);
        }
    }
    assert(climb(lemma, path, j as nat) == sha256_of(x));
    assert(climb(l2, path, j as nat) == sha256_of(y));
    assert(l2[n + 1] == lemma[n + 1]);
    if sha256_of(x) == sha256_of(y) {
        assert(x != y && sha256_of(x) == sha256_of(y));
    } else {
        lemma_diverged_climbs_collide(lemma, path, l2, path, j as nat);
    }
}

/// A proof that verifies still verifies after one of its path bits is
/// flipped only where SHA-256 has a collision, wherever the node and its
/// sibling at that level give two different byte strings in the two orders
/// (as two different 32-byte digests always do).
pub proof fn lemma_flipped_bit_needs_collision(path: Seq<bool>, lemma: Seq<Seq<u8>>, i: int)
    requires
        verdict(path, lemma) == Ok::<bool, VerifyError>(true),
        0 <= i < path.len(),
        climb(lemma, path, i as nat) + lemma[i + 1] != lemma[i + 1] + climb(lemma, path, i as nat),
        verdict(path.update(i, !path[i]), lemma) == Ok::<bool, VerifyError>(true),
    ensures
        sha256_collision_exists(),
{
    let p2 = path.update(i, !path[i]);
    lemma_climb_same_prefix(lemma, path, lemma, p2, i as nat);
    let c = climb(lemma, path, i as nat);
    let s = lemma[i + 1];
    let x = if path[i] { s + c } else { c + s };
    let y = if path[i] { c + s } else { s + c };
    assert(climb(lemma, path, (i + 1) as nat) == sha256_of(x));
    assert(climb(lemma, p2, (i + 1) as nat) == sha256_of(y));
    if sha256_of(x) == sha256_of(y) {
        assert(x != y && sha256_of(x) == sha256_of(y));
    } else {
        lemma_diverged_climbs_collide(lemma, path, lemma, p2, (i + 1) as nat);
    }
}

} // verus!
