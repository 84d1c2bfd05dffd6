use sabi_wallet::recovery::codec::{SecretCodec, Share};
use sabi_wallet::recovery::error::RecoveryError;
use sabi_wallet::recovery::secret::Secret;

fn sample_secret() -> Vec<u8> {
    (0u8..32).map(|i| i.wrapping_mul(7).wrapping_add(3)).collect()
}

fn copy(share: &Share) -> Share {
    Share {
        index: share.index,
        threshold: share.threshold,
        set_id: share.set_id,
        payload: share.payload.clone(),
    }
}

#[test]
fn split_then_reconstruct_any_three_of_five() {
    let secret = Secret::new(sample_secret());
    let set = SecretCodec::split(&secret, 3, 5).unwrap();
    assert_eq!(set.shares.len(), 5);
    for a in 0..5 {
        for b in (a + 1)..5 {
            for c in (b + 1)..5 {
                let chosen = vec![copy(&set.shares[c]), copy(&set.shares[a]), copy(&set.shares[b])];
                let back = SecretCodec::reconstruct(&chosen, 3).unwrap();
                assert_eq!(back.expose(), &sample_secret());
            }
        }
    }
}

#[test]
fn reconstruct_with_more_than_the_threshold_and_duplicates() {
    let secret = Secret::new(sample_secret());
    let set = SecretCodec::split(&secret, 2, 4).unwrap();
    let chosen = vec![
        copy(&set.shares[3]),
        copy(&set.shares[3]),
        copy(&set.shares[0]),
        copy(&set.shares[1]),
        copy(&set.shares[2]),
    ];
    assert_eq!(SecretCodec::reconstruct(&chosen, 2).unwrap().expose(), &sample_secret());
}

#[test]
fn two_of_three_needed_is_insufficient() {
    let secret = Secret::new(sample_secret());
    let set = SecretCodec::split(&secret, 3, 5).unwrap();
    let chosen = vec![copy(&set.shares[0]), copy(&set.shares[4])];
    assert_eq!(SecretCodec::reconstruct(&chosen, 3).err(), Some(RecoveryError::InsufficientShares));
    let repeated = vec![copy(&set.shares[0]), copy(&set.shares[0]), copy(&set.shares[0])];
    assert_eq!(
        SecretCodec::reconstruct(&repeated, 3).err(),
        Some(RecoveryError::InsufficientShares)
    );
    assert_eq!(
        SecretCodec::reconstruct(&Vec::new(), 3).err(),
        Some(RecoveryError::InsufficientShares)
    );
}

#[test]
fn threshold_out_of_range_is_invalid() {
    let secret = Secret::new(sample_secret());
    assert_eq!(SecretCodec::split(&secret, 0, 5).err(), Some(RecoveryError::InvalidThreshold));
    assert_eq!(SecretCodec::split(&secret, 6, 5).err(), Some(RecoveryError::InvalidThreshold));
    assert_eq!(SecretCodec::split(&secret, 1, 0).err(), Some(RecoveryError::InvalidThreshold));
    assert!(SecretCodec::split(&secret, 5, 5).is_ok());
    assert!(SecretCodec::split(&secret, 1, 1).is_ok());
    assert_eq!(
        SecretCodec::reconstruct(&Vec::new(), 0).err(),
        Some(RecoveryError::InvalidThreshold)
    );
}

#[test]
fn largest_split_reconstructs() {
    let secret = Secret::new(vec![0xde, 0xad, 0xbe, 0xef]);
    let set = SecretCodec::split(&secret, 255, 255).unwrap();
    assert_eq!(set.shares.len(), 255);
    assert_eq!(set.shares[254].index, 255);
    let back = SecretCodec::reconstruct(&set.shares, 255).unwrap();
    assert_eq!(back.expose(), &vec![0xde, 0xad, 0xbe, 0xef]);
}

#[test]
fn threshold_one_puts_the_secret_in_every_share() {
    let secret = Secret::new(vec![1, 2, 3]);
    let set = SecretCodec::split(&secret, 1, 3).unwrap();
    for share in &set.shares {
        assert_eq!(&share.payload[..3], &[1, 2, 3]);
        assert_eq!(share.payload.len(), 7);
        let back = SecretCodec::reconstruct(&vec![copy(share)], 1).unwrap();
        assert_eq!(back.expose(), &vec![1, 2, 3]);
    }
}

#[test]
fn split_with_given_coefficients_is_exact() {
    // One byte 0x2a with threshold 2: the polynomial 0x2a + 0x07 x.
    // The fingerprint of [0x2a] is its CRC-32, 0x09ad7841... computed below
    // through the library's own shares of threshold one.
    let secret = Secret::new(vec![0x2a]);
    let plain = SecretCodec::split_with(&secret, 1, 1, &vec![vec![]; 5], 9).unwrap();
    let data = plain.shares[0].payload.clone();
    assert_eq!(data[0], 0x2a);
    let coefficients: Vec<Vec<u8>> = vec![vec![0x07]; 5];
    let set = SecretCodec::split_with(&secret, 2, 3, &coefficients, 77).unwrap();
    assert_eq!(set.shares.len(), 3);
    for (i, share) in set.shares.iter().enumerate() {
        let x = (i + 1) as u8;
        assert_eq!(share.index, x);
        assert_eq!(share.threshold, 2);
        assert_eq!(share.set_id, 77);
        // 0x07 * 1 = 0x07, 0x07 * 2 = 0x0e, 0x07 * 3 = 0x09
        let slope = [0x07u8, 0x0e, 0x09][i];
        let expected: Vec<u8> = data.iter().map(|d| d ^ slope).collect();
        assert_eq!(share.payload, expected);
    }
    assert_eq!(set.shares[0].payload[0], 0x2d);
    assert_eq!(set.shares[1].payload[0], 0x24);
    assert_eq!(set.shares[2].payload[0], 0x23);
}

#[test]
fn two_splits_of_one_secret_differ_and_do_not_mix() {
    let secret = Secret::new(sample_secret());
    let first = SecretCodec::split(&secret, 3, 5).unwrap();
    let second = SecretCodec::split(&secret, 3, 5).unwrap();
    assert_ne!(first.shares[0].set_id, second.shares[0].set_id);
    assert_ne!(first.shares[0].payload, second.shares[0].payload);
    let mixed = vec![copy(&first.shares[0]), copy(&first.shares[1]), copy(&second.shares[2])];
    assert_eq!(SecretCodec::reconstruct(&mixed, 3).err(), Some(RecoveryError::InconsistentShares));
    let mixed_short = vec![copy(&first.shares[0]), copy(&second.shares[2])];
    assert_eq!(
        SecretCodec::reconstruct(&mixed_short, 3).err(),
        Some(RecoveryError::InconsistentShares)
    );
}

#[test]
fn damaged_share_is_inconsistent() {
    let secret = Secret::new(sample_secret());
    let set = SecretCodec::split(&secret, 3, 5).unwrap();
    let mut damaged = copy(&set.shares[1]);
    damaged.payload[5] ^= 0x40;
    let chosen = vec![copy(&set.shares[0]), damaged, copy(&set.shares[2])];
    assert_eq!(SecretCodec::reconstruct(&chosen, 3).err(), Some(RecoveryError::InconsistentShares));
}

#[test]
fn implausible_shares_are_inconsistent() {
    let secret = Secret::new(sample_secret());
    let set = SecretCodec::split(&secret, 2, 3).unwrap();
    let mut zero_index = copy(&set.shares[0]);
    zero_index.index = 0;
    assert_eq!(
        SecretCodec::reconstruct(&vec![zero_index, copy(&set.shares[1])], 2).err(),
        Some(RecoveryError::InconsistentShares)
    );
    assert_eq!(
        SecretCodec::reconstruct(&vec![copy(&set.shares[0]), copy(&set.shares[1])], 3).err(),
        Some(RecoveryError::InconsistentShares)
    );
    let mut short = copy(&set.shares[0]);
    short.payload.truncate(3);
    assert_eq!(
        SecretCodec::reconstruct(&vec![short], 2).err(),
        Some(RecoveryError::InconsistentShares)
    );
    let mut twin = copy(&set.shares[0]);
    twin.payload[0] ^= 1;
    assert_eq!(
        SecretCodec::reconstruct(&vec![copy(&set.shares[0]), twin, copy(&set.shares[1])], 2).err(),
        Some(RecoveryError::InconsistentShares)
    );
}

#[test]
fn empty_secret_splits_and_reconstructs() {
    let secret = Secret::new(Vec::new());
    let set = SecretCodec::split(&secret, 2, 3).unwrap();
    let back =
        SecretCodec::reconstruct(&vec![copy(&set.shares[2]), copy(&set.shares[0])], 2).unwrap();
    assert!(back.expose().is_empty());
}

#[test]
fn scrub_empties_a_secret() {
    let mut secret = Secret::new(vec![9, 9, 9]);
    assert_eq!(secret.len(), 3);
    secret.scrub();
    assert_eq!(secret.len(), 0);
    assert!(secret.expose().is_empty());
}

/// The secret followed by its fingerprint, read off a split with threshold
/// one.
fn protected(secret: &[u8]) -> Vec<u8> {
    let rows = vec![Vec::new(); secret.len() + 4];
    let set = SecretCodec::split_with(&Secret::new(secret.to_vec()), 1, 1, &rows, 0).unwrap();
    set.shares[0].payload.clone()
}

#[test]
fn one_share_of_two_fits_any_secret() {
    let secret = [0x11u8, 0x22, 0x33];
    let other = [0xa0u8, 0x0b, 0xcc];
    let rows: Vec<Vec<u8>> = (0..7u8).map(|b| vec![b.wrapping_mul(37).wrapping_add(5)]).collect();
    let set = SecretCodec::split_with(&Secret::new(secret.to_vec()), 2, 3, &rows, 5).unwrap();
    // At the point 1 the share is the data plus the coefficient, so the
    // coefficients that make the other secret yield the same first share
    // are the share minus the other data.
    let fitting: Vec<Vec<u8>> = set.shares[0]
        .payload
        .iter()
        .zip(protected(&other))
        .map(|(share, data)| vec![share ^ data])
        .collect();
    let twin = SecretCodec::split_with(&Secret::new(other.to_vec()), 2, 3, &fitting, 5).unwrap();
    assert_eq!(twin.shares[0].payload, set.shares[0].payload);
    assert_ne!(twin.shares[1].payload, set.shares[1].payload);
    let back =
        SecretCodec::reconstruct(&vec![copy(&twin.shares[0]), copy(&twin.shares[2])], 2).unwrap();
    assert_eq!(back.expose(), &other.to_vec());
}
