use patat::evidence::EvidenceProof;
use patat::lemma::EvidenceLemma;
use patat::path::{CodecError, EvidencePath};

fn bits_of(n: usize) -> Vec<bool> {
    (0..n).map(|i| (i * 7 + i / 3) % 3 == 0).collect()
}

fn hash_of(b: u8) -> [u8; 32] {
    let mut h = [0u8; 32];
    for (i, x) in h.iter_mut().enumerate() {
        *x = b.wrapping_add(i as u8);
    }
    h
}

#[test]
fn empty_path_encodes_to_zero_count() {
    let p = EvidencePath::from_bits(vec![]).unwrap();
    assert_eq!(p.to_bytes(), vec![0u8, 0u8]);
    assert_eq!(p.path().unwrap(), Vec::<bool>::new());
}

#[test]
fn path_bits_are_packed_most_significant_first() {
    let p = EvidencePath::from_bits(vec![true, false, true]).unwrap();
    assert_eq!(p.to_bytes(), vec![0u8, 3u8, 0xA0u8]);
}

#[test]
fn full_byte_of_bits_has_no_trailing_byte() {
    let p = EvidencePath::from_bits(vec![true; 8]).unwrap();
    assert_eq!(p.to_bytes(), vec![0u8, 8u8, 0xFFu8]);
    let q = EvidencePath::from_bits(vec![true; 9]).unwrap();
    assert_eq!(q.to_bytes(), vec![0u8, 9u8, 0xFFu8, 0x80u8]);
}

#[test]
fn long_path_count_is_big_endian() {
    let p = EvidencePath::from_bits(vec![false; 300]).unwrap();
    let b = p.to_bytes();
    assert_eq!(b[0], 1u8);
    assert_eq!(b[1], 44u8);
    assert_eq!(b.len(), 2 + 38);
}

#[test]
fn path_round_trips_for_many_lengths() {
    for n in [0usize, 1, 2, 7, 8, 9, 15, 16, 17, 64, 255, 256, 1000] {
        let bits = bits_of(n);
        let p = EvidencePath::from_bits(bits.clone()).unwrap();
        assert_eq!(p.path().unwrap(), bits);
    }
}

#[test]
fn path_of_largest_count_round_trips() {
    let bits = bits_of(65535);
    let p = EvidencePath::from_bits(bits.clone()).unwrap();
    assert_eq!(p.to_bytes().len(), 2 + 8192);
    assert_eq!(p.path().unwrap(), bits);
}

#[test]
fn path_too_long_for_its_count_is_refused() {
    assert_eq!(EvidencePath::from_bits(vec![false; 65536]).err(), Some(CodecError::InvalidLength));
}

#[test]
fn path_padding_bits_are_dropped() {
    let p = EvidencePath::from_bytes(&[0u8, 2u8, 0xFFu8, 0xFFu8]);
    assert_eq!(p.path().unwrap(), vec![true, true]);
}

#[test]
fn truncated_path_is_refused() {
    assert_eq!(EvidencePath::from_bytes(&[0u8]).path().err(), Some(CodecError::Truncated));
    assert_eq!(EvidencePath::from_bytes(&[0u8, 9u8, 0xFFu8]).path().err(), Some(CodecError::Truncated));
}

#[test]
fn lemma_is_hashes_back_to_back() {
    let l = EvidenceLemma::from_hashes(vec![hash_of(1), hash_of(100)]);
    let b = l.to_bytes();
    assert_eq!(b.len(), 64);
    assert_eq!(&b[..32], &hash_of(1)[..]);
    assert_eq!(&b[32..], &hash_of(100)[..]);
}

#[test]
fn lemma_round_trips() {
    let hashes = vec![hash_of(3), hash_of(9), hash_of(200)];
    let b = EvidenceLemma::from_hashes(hashes.clone()).to_bytes();
    assert_eq!(EvidenceLemma::from_bytes(&b).unwrap().lemma(), hashes);
}

#[test]
fn misaligned_lemma_is_refused() {
    assert_eq!(EvidenceLemma::from_bytes(&[0u8; 33]).err(), Some(CodecError::Misaligned));
}

#[test]
fn proof_wire_form_has_two_prefixed_parts() {
    let p = EvidenceProof::new(vec![true], vec![hash_of(1), hash_of(2), hash_of(3)]);
    let b = p.to_bytes().unwrap();
    assert_eq!(&b[..5], &[0u8, 3u8, 0u8, 1u8, 0x80u8]);
    assert_eq!(&b[5..7], &[0u8, 96u8]);
    assert_eq!(b.len(), 7 + 96);
    assert_eq!(&b[7..39], &hash_of(1)[..]);
}

#[test]
fn proof_round_trips() {
    let p = EvidenceProof::new(bits_of(11), (0..13u8).map(hash_of).collect());
    let b = p.to_bytes().unwrap();
    let q = EvidenceProof::from_bytes(&b).unwrap();
    assert_eq!(q.to_bytes().unwrap(), b);
}

#[test]
fn proof_with_too_many_hashes_is_refused() {
    let p = EvidenceProof::new(vec![], vec![[0u8; 32]; 2048]);
    assert_eq!(p.to_bytes().err(), Some(CodecError::InvalidLength));
}

#[test]
fn truncated_proof_is_refused() {
    let p = EvidenceProof::new(vec![false], vec![hash_of(1), hash_of(2), hash_of(3)]);
    let b = p.to_bytes().unwrap();
    assert_eq!(EvidenceProof::from_bytes(&b[..1]).err(), Some(CodecError::Truncated));
    assert_eq!(EvidenceProof::from_bytes(&b[..6]).err(), Some(CodecError::Truncated));
    assert_eq!(EvidenceProof::from_bytes(&b[..b.len() - 1]).err(), Some(CodecError::Truncated));
}

#[test]
fn proof_with_misaligned_lemma_is_refused() {
    let b = vec![0u8, 2u8, 0u8, 0u8, 0u8, 3u8, 1u8, 2u8, 3u8];
    assert_eq!(EvidenceProof::from_bytes(&b).err(), Some(CodecError::Misaligned));
}

#[test]
fn proof_with_short_path_segment_is_refused() {
    let b = vec![0u8, 2u8, 0u8, 9u8, 0u8, 0u8];
    assert_eq!(EvidenceProof::from_bytes(&b).err(), Some(CodecError::Truncated));
}

#[test]
fn left_flags_become_negated_wire_bits() {
    assert_eq!(
        patat::path::path_from_left_flags(&[true, false, false]),
        vec![false, true, true]
    );
    assert_eq!(patat::path::path_from_left_flags(&[]), Vec::<bool>::new());
}
