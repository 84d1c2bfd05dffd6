use sabi_wallet::recovery::channel::{ConfidentialChannel, Envelope, Identity, PubKey};
use sabi_wallet::recovery::collector::{CollectionOutcome, ShareCollector};
use sabi_wallet::recovery::coordinator::{Dispatch, RecoveryCoordinator};
use sabi_wallet::recovery::error::RecoveryError;
use sabi_wallet::recovery::secret::Secret;
use sabi_wallet::recovery::session::{AcceptOutcome, SessionState};

const WALLET: u128 = 0x1234_5678_9abc_def0_1234_5678_9abc_def0;

fn secret_bytes() -> Vec<u8> {
    (1u8..=32).collect()
}

fn helpers(n: usize) -> Vec<Identity> {
    (0..n).map(|_| Identity::generate()).collect()
}

fn keys(helpers: &[Identity]) -> Vec<PubKey> {
    helpers.iter().map(|h| h.public_key().duplicate()).collect()
}

/// What a helper does: opens the share sent to it and seals it again for
/// the session.
fn answer(helper: &Identity, dispatch: &Dispatch) -> Envelope {
    let sealed = dispatch.sealed.as_ref().unwrap();
    let share = ConfidentialChannel::decrypt_from(sealed, helper, &dispatch.sender).unwrap();
    ConfidentialChannel::encrypt_for(&share, helper, &dispatch.sender).unwrap()
}

fn start(
    coordinator: &mut RecoveryCoordinator,
    helpers: &[Identity],
    k: u8,
    now: u64,
) -> Vec<Dispatch> {
    coordinator
        .initiate(WALLET, &keys(helpers), k, &Secret::new(secret_bytes()), now)
        .unwrap()
}

#[test]
fn three_of_five_recovers_on_the_third_submission() {
    let mut coordinator = RecoveryCoordinator::new(600);
    assert_eq!(coordinator.state(WALLET), SessionState::NoSession);
    let helpers = helpers(5);
    let dispatches = start(&mut coordinator, &helpers, 3, 1_000);
    assert_eq!(dispatches.len(), 5);
    assert_eq!(coordinator.state(WALLET), SessionState::Collecting);

    let first = coordinator
        .accept(WALLET, helpers[4].public_key().duplicate(), answer(&helpers[4], &dispatches[4]), 1_001)
        .unwrap();
    assert!(matches!(first, AcceptOutcome::Recorded(1)));
    let second = coordinator
        .accept(WALLET, helpers[1].public_key().duplicate(), answer(&helpers[1], &dispatches[1]), 1_002)
        .unwrap();
    assert!(matches!(second, AcceptOutcome::Recorded(2)));
    let third = coordinator
        .accept(WALLET, helpers[2].public_key().duplicate(), answer(&helpers[2], &dispatches[2]), 1_003)
        .unwrap();
    match third {
        AcceptOutcome::Reconstructed(secret) => assert_eq!(secret.expose(), &secret_bytes()),
        AcceptOutcome::Recorded(_) => panic!("the third share reaches the threshold"),
    }
    assert_eq!(coordinator.state(WALLET), SessionState::Reconstructed);

    let fourth = coordinator.accept(
        WALLET,
        helpers[0].public_key().duplicate(),
        answer(&helpers[0], &dispatches[0]),
        1_004,
    );
    assert_eq!(fourth.err(), Some(RecoveryError::NoActiveSession));
}

#[test]
fn submission_for_a_wallet_without_session_is_refused() {
    let mut coordinator = RecoveryCoordinator::new(600);
    let helper = Identity::generate();
    let r = coordinator.accept(
        WALLET,
        helper.public_key().duplicate(),
        Envelope::new("AAAA?iv=AAAAAAAAAAAAAAAAAAAAAA==".to_string()),
        5,
    );
    assert_eq!(r.err(), Some(RecoveryError::NoActiveSession));
}

#[test]
fn second_initiate_while_active_is_refused_and_allowed_after_expiry() {
    let mut coordinator = RecoveryCoordinator::new(100);
    let helpers = helpers(3);
    start(&mut coordinator, &helpers, 2, 1_000);
    let again = coordinator.initiate(WALLET, &keys(&helpers), 2, &Secret::new(secret_bytes()), 1_050);
    assert_eq!(again.err(), Some(RecoveryError::SessionAlreadyActive));
    // another wallet is not in the way
    assert!(coordinator
        .initiate(WALLET + 1, &keys(&helpers), 2, &Secret::new(secret_bytes()), 1_050)
        .is_ok());
    // at the expiry the session no longer stands in the way
    assert!(coordinator
        .initiate(WALLET, &keys(&helpers), 2, &Secret::new(secret_bytes()), 1_100)
        .is_ok());
    assert_eq!(coordinator.state(WALLET), SessionState::Collecting);
}

#[test]
fn initiate_refuses_bad_thresholds() {
    let mut coordinator = RecoveryCoordinator::new(100);
    let helpers = helpers(3);
    for k in [0u8, 4, 255] {
        let r = coordinator.initiate(WALLET, &keys(&helpers), k, &Secret::new(secret_bytes()), 1);
        assert_eq!(r.err(), Some(RecoveryError::InvalidThreshold));
    }
    let none: Vec<PubKey> = Vec::new();
    let r = coordinator.initiate(WALLET, &none, 1, &Secret::new(secret_bytes()), 1);
    assert_eq!(r.err(), Some(RecoveryError::InvalidThreshold));
    assert_eq!(coordinator.state(WALLET), SessionState::NoSession);
}

#[test]
fn expired_session_refuses_submissions_until_a_fresh_initiate() {
    let mut coordinator = RecoveryCoordinator::new(60);
    let helpers = helpers(3);
    let dispatches = start(&mut coordinator, &helpers, 3, 1_000);
    for i in 0..2 {
        let r = coordinator
            .accept(
                WALLET,
                helpers[i].public_key().duplicate(),
                answer(&helpers[i], &dispatches[i]),
                1_010,
            )
            .unwrap();
        assert!(matches!(r, AcceptOutcome::Recorded(_)));
    }
    let late = coordinator.accept(
        WALLET,
        helpers[2].public_key().duplicate(),
        answer(&helpers[2], &dispatches[2]),
        1_060,
    );
    assert_eq!(late.err(), Some(RecoveryError::Expired));
    assert_eq!(coordinator.state(WALLET), SessionState::Expired);
    let later = coordinator.accept(
        WALLET,
        helpers[2].public_key().duplicate(),
        answer(&helpers[2], &dispatches[2]),
        1_061,
    );
    assert_eq!(later.err(), Some(RecoveryError::Expired));

    let fresh = start(&mut coordinator, &helpers, 3, 2_000);
    assert_eq!(coordinator.state(WALLET), SessionState::Collecting);
    // the old answers are sealed for the key of the old session
    let stale = coordinator.accept(
        WALLET,
        helpers[0].public_key().duplicate(),
        answer(&helpers[0], &dispatches[0]),
        2_001,
    );
    assert_eq!(stale.err(), Some(RecoveryError::DecryptionFailed));
    for i in 0..3 {
        let r = coordinator
            .accept(WALLET, helpers[i].public_key().duplicate(), answer(&helpers[i], &fresh[i]), 2_002)
            .unwrap();
        if i == 2 {
            assert!(matches!(r, AcceptOutcome::Reconstructed(_)));
        }
    }
}

#[test]
fn sweep_expires_only_what_is_due() {
    let mut coordinator = RecoveryCoordinator::new(60);
    let helpers = helpers(2);
    coordinator
        .initiate(1, &keys(&helpers), 2, &Secret::new(secret_bytes()), 1_000)
        .unwrap();
    coordinator
        .initiate(2, &keys(&helpers), 2, &Secret::new(secret_bytes()), 1_030)
        .unwrap();
    coordinator.sweep(1_059);
    assert_eq!(coordinator.state(1), SessionState::Collecting);
    coordinator.sweep(1_060);
    assert_eq!(coordinator.state(1), SessionState::Expired);
    assert_eq!(coordinator.state(2), SessionState::Collecting);
    coordinator.sweep(1_090);
    assert_eq!(coordinator.state(2), SessionState::Expired);
    assert_eq!(coordinator.state(3), SessionState::NoSession);
}

#[test]
fn flipping_a_bit_of_the_envelope_is_detected() {
    let mut coordinator = RecoveryCoordinator::new(600);
    let helpers = helpers(3);
    let dispatches = start(&mut coordinator, &helpers, 2, 1_000);
    let good = answer(&helpers[0], &dispatches[0]);
    let bytes = good.content.clone().into_bytes();
    let mut refused = 0;
    for i in 0..bytes.len() {
        for bit in 0..7 {
            let mut damaged = bytes.clone();
            damaged[i] ^= 1 << bit;
            let text = match String::from_utf8(damaged) {
                Ok(text) => text,
                Err(_) => continue,
            };
            let r = coordinator.accept(
                WALLET,
                helpers[0].public_key().duplicate(),
                Envelope::new(text),
                1_001,
            );
            assert_eq!(r.err(), Some(RecoveryError::DecryptionFailed), "byte {} bit {}", i, bit);
            refused += 1;
        }
    }
    assert!(refused > 100);
    // nothing was recorded by the damaged envelopes
    let r = coordinator
        .accept(WALLET, helpers[0].public_key().duplicate(), good, 1_002)
        .unwrap();
    assert!(matches!(r, AcceptOutcome::Recorded(1)));
}

#[test]
fn envelope_from_the_wrong_sender_is_refused() {
    let mut coordinator = RecoveryCoordinator::new(600);
    let helpers = helpers(2);
    let dispatches = start(&mut coordinator, &helpers, 2, 1_000);
    let envelope = answer(&helpers[0], &dispatches[0]);
    let r = coordinator.accept(WALLET, helpers[1].public_key().duplicate(), envelope, 1_001);
    assert_eq!(r.err(), Some(RecoveryError::DecryptionFailed));
}

#[test]
fn resubmission_counts_once() {
    let mut coordinator = RecoveryCoordinator::new(600);
    let helpers = helpers(3);
    let dispatches = start(&mut coordinator, &helpers, 2, 1_000);
    for _ in 0..3 {
        let r = coordinator
            .accept(
                WALLET,
                helpers[0].public_key().duplicate(),
                answer(&helpers[0], &dispatches[0]),
                1_001,
            )
            .unwrap();
        assert!(matches!(r, AcceptOutcome::Recorded(1)));
    }
    assert_eq!(coordinator.state(WALLET), SessionState::Collecting);
    let r = coordinator
        .accept(WALLET, helpers[1].public_key().duplicate(), answer(&helpers[1], &dispatches[1]), 1_002)
        .unwrap();
    assert!(matches!(r, AcceptOutcome::Reconstructed(_)));
}

#[test]
fn two_helpers_with_the_same_share_do_not_reconstruct() {
    let mut coordinator = RecoveryCoordinator::new(600);
    let helpers = helpers(3);
    let dispatches = start(&mut coordinator, &helpers, 2, 1_000);
    let share = ConfidentialChannel::decrypt_from(
        dispatches[0].sealed.as_ref().unwrap(),
        &helpers[0],
        &dispatches[0].sender,
    )
    .unwrap();
    let copy = ConfidentialChannel::encrypt_for(&share, &helpers[1], &dispatches[0].sender).unwrap();
    let r = coordinator
        .accept(WALLET, helpers[0].public_key().duplicate(), answer(&helpers[0], &dispatches[0]), 1_001)
        .unwrap();
    assert!(matches!(r, AcceptOutcome::Recorded(1)));
    // the second helper hands in a copy of the first share: two helpers,
    // one distinct share, so the session goes on collecting
    let r = coordinator.accept(WALLET, helpers[1].public_key().duplicate(), copy, 1_002).unwrap();
    assert!(matches!(r, AcceptOutcome::Recorded(2)));
    assert_eq!(coordinator.state(WALLET), SessionState::Collecting);
    let r = coordinator
        .accept(WALLET, helpers[2].public_key().duplicate(), answer(&helpers[2], &dispatches[2]), 1_003)
        .unwrap();
    match r {
        AcceptOutcome::Reconstructed(secret) => assert_eq!(secret.expose(), &secret_bytes()),
        AcceptOutcome::Recorded(_) => panic!("two distinct shares are in"),
    }
}

#[test]
fn shares_of_another_split_abort_the_session() {
    let mut first = RecoveryCoordinator::new(600);
    let mut second = RecoveryCoordinator::new(600);
    let helpers = helpers(2);
    let ours = start(&mut first, &helpers, 2, 1_000);
    let theirs = start(&mut second, &helpers, 2, 1_000);
    // helper 1 answers the first session with its share of the second split
    let foreign = ConfidentialChannel::decrypt_from(
        theirs[1].sealed.as_ref().unwrap(),
        &helpers[1],
        &theirs[1].sender,
    )
    .unwrap();
    let smuggled = ConfidentialChannel::encrypt_for(&foreign, &helpers[1], &ours[1].sender).unwrap();
    first
        .accept(WALLET, helpers[0].public_key().duplicate(), answer(&helpers[0], &ours[0]), 1_001)
        .unwrap();
    let r = first.accept(WALLET, helpers[1].public_key().duplicate(), smuggled, 1_002);
    assert_eq!(r.err(), Some(RecoveryError::InconsistentShares));
    assert_eq!(first.state(WALLET), SessionState::Aborted);
    let r = first.accept(
        WALLET,
        helpers[1].public_key().duplicate(),
        answer(&helpers[1], &ours[1]),
        1_003,
    );
    assert_eq!(r.err(), Some(RecoveryError::NoActiveSession));
    // a fresh initiate starts over
    assert!(first
        .initiate(WALLET, &keys(&helpers), 2, &Secret::new(secret_bytes()), 1_004)
        .is_ok());
}

#[test]
fn collector_reports_the_threshold_once_per_new_helper() {
    let a = PubKey::from_bytes(vec![1; 32]);
    let b = PubKey::from_bytes(vec![2; 32]);
    let c = PubKey::from_bytes(vec![3; 32]);
    let mut collector = ShareCollector::new(7, 2);
    assert_eq!(collector.threshold(), 2);
    let r = collector.record(8, a.duplicate(), Envelope::new("x".to_string()));
    assert_eq!(r.err(), Some(RecoveryError::NoActiveSession));
    assert_eq!(collector.progress(), 0);
    assert!(matches!(
        collector.record(7, a.duplicate(), Envelope::new("one".to_string())),
        Ok(CollectionOutcome::Recorded)
    ));
    assert!(matches!(
        collector.record(7, a.duplicate(), Envelope::new("one again".to_string())),
        Ok(CollectionOutcome::Recorded)
    ));
    assert_eq!(collector.progress(), 1);
    match collector.record(7, b.duplicate(), Envelope::new("two".to_string())) {
        Ok(CollectionOutcome::ThresholdReached(all)) => {
            assert_eq!(all.len(), 2);
            assert_eq!(all[0].envelope.content, "one again");
            assert_eq!(all[1].envelope.content, "two");
            assert!(all[0].helper.same(&a));
        }
        _ => panic!("the second helper reaches the threshold"),
    }
    // a resubmission beyond the threshold does not report it again
    assert!(matches!(
        collector.record(7, b.duplicate(), Envelope::new("two again".to_string())),
        Ok(CollectionOutcome::Recorded)
    ));
    // a late new helper does
    assert!(matches!(
        collector.record(7, c.duplicate(), Envelope::new("three".to_string())),
        Ok(CollectionOutcome::ThresholdReached(_))
    ));
    collector.clear(8);
    assert_eq!(collector.progress(), 3);
    collector.clear(7);
    assert_eq!(collector.progress(), 0);
}

#[test]
fn state_transitions_follow_the_table() {
    let all = [
        SessionState::NoSession,
        SessionState::Requested,
        SessionState::Collecting,
        SessionState::Reconstructed,
        SessionState::Expired,
        SessionState::Aborted,
    ];
    let allowed = [
        (SessionState::NoSession, SessionState::Requested),
        (SessionState::Requested, SessionState::Collecting),
        (SessionState::Collecting, SessionState::Reconstructed),
        (SessionState::Collecting, SessionState::Expired),
        (SessionState::Collecting, SessionState::Aborted),
        (SessionState::Reconstructed, SessionState::Requested),
        (SessionState::Expired, SessionState::Requested),
        (SessionState::Aborted, SessionState::Requested),
    ];
    for from in all {
        for to in all {
            assert_eq!(from.can_become(to), allowed.contains(&(from, to)));
        }
    }
}

#[test]
fn channel_round_trip_and_wrong_key() {
    let alice = Identity::generate();
    let bob = Identity::generate();
    let eve = Identity::generate();
    let payload = b"for bob only".to_vec();
    let envelope = ConfidentialChannel::encrypt_for(&payload, &alice, bob.public_key()).unwrap();
    assert_ne!(envelope.content.as_bytes(), payload.as_slice());
    assert_eq!(
        ConfidentialChannel::decrypt_from(&envelope, &bob, alice.public_key()).unwrap(),
        payload
    );
    assert_eq!(
        ConfidentialChannel::decrypt_from(&envelope, &eve, alice.public_key()).err(),
        Some(RecoveryError::DecryptionFailed)
    );
    assert_eq!(
        ConfidentialChannel::decrypt_from(&Envelope::new("junk".to_string()), &bob, alice.public_key())
            .err(),
        Some(RecoveryError::DecryptionFailed)
    );
    assert_eq!(ConfidentialChannel::open(None).err(), Some(RecoveryError::DecryptionFailed));
    assert_eq!(
        ConfidentialChannel::open(Some(b"313233343536373839cbf43926".to_vec())).unwrap(),
        b"123456789".to_vec()
    );
}

#[test]
fn keys_are_read_from_text() {
    let hex = "6b911fd37cdf5c81d4c0adb1ab7fa822ed253ab0ad9aa18d77257c88b29b718e";
    let identity = Identity::parse(hex).unwrap();
    let again = Identity::from_secret(Secret::new(
        (0..32).map(|i| u8::from_str_radix(&hex[2 * i..2 * i + 2], 16).unwrap()).collect(),
    ))
    .unwrap();
    assert!(identity.public_key().same(again.public_key()));
    assert_eq!(identity.public_key().bytes.len(), 32);
    assert!(Identity::parse("not a key").is_none());
    assert!(Identity::from_secret(Secret::new(vec![0; 32])).is_none());
    assert!(PubKey::parse("nonsense").is_none());
    let public_hex: String =
        identity.public_key().bytes.iter().map(|b| format!("{:02x}", b)).collect();
    assert!(PubKey::parse(&public_hex).unwrap().same(identity.public_key()));
}

#[test]
fn share_that_cannot_be_sealed_is_reported_and_the_rest_goes_on() {
    let mut coordinator = RecoveryCoordinator::new(600);
    let helpers = helpers(3);
    let mut keys = keys(&helpers);
    // thirty-one bytes are no public key
    keys[1] = PubKey::from_bytes(vec![7; 31]);
    let dispatches = coordinator
        .initiate(WALLET, &keys, 2, &Secret::new(secret_bytes()), 1_000)
        .unwrap();
    assert_eq!(dispatches.len(), 3);
    assert!(dispatches[0].sealed.is_ok());
    assert_eq!(dispatches[1].sealed.as_ref().err(), Some(&RecoveryError::TransportUnavailable));
    assert!(dispatches[2].sealed.is_ok());
    assert!(dispatches[1].recipient.same(&keys[1]));
    assert!(dispatches[0].sender.same(&dispatches[2].sender));
    assert_eq!(coordinator.state(WALLET), SessionState::Collecting);
    // the two helpers that were reached recover the wallet
    let r = coordinator
        .accept(WALLET, helpers[0].public_key().duplicate(), answer(&helpers[0], &dispatches[0]), 1_001)
        .unwrap();
    assert!(matches!(r, AcceptOutcome::Recorded(1)));
    let r = coordinator
        .accept(WALLET, helpers[2].public_key().duplicate(), answer(&helpers[2], &dispatches[2]), 1_002)
        .unwrap();
    assert!(matches!(r, AcceptOutcome::Reconstructed(_)));
    assert_eq!(
        ConfidentialChannel::encrypt_for(&vec![1, 2, 3], &helpers[0], &keys[1]).err(),
        Some(RecoveryError::TransportUnavailable)
    );
}

#[test]
fn session_expires_at_the_end_of_time_when_the_clock_is_near_it() {
    let mut coordinator = RecoveryCoordinator::new(u64::MAX);
    let helpers = helpers(1);
    let dispatches = start(&mut coordinator, &helpers, 1, 5);
    let r = coordinator
        .accept(
            WALLET,
            helpers[0].public_key().duplicate(),
            answer(&helpers[0], &dispatches[0]),
            u64::MAX - 1,
        )
        .unwrap();
    assert!(matches!(r, AcceptOutcome::Reconstructed(_)));
}

#[test]
fn sealed_envelope_opens_under_the_keys_it_was_sealed_with() {
    let alice = Identity::generate();
    let bob = Identity::generate();
    for payload in [Vec::new(), vec![0u8], b"a share for bob".to_vec(), vec![0xff; 100]] {
        let envelope = ConfidentialChannel::encrypt_for(&payload, &alice, bob.public_key()).unwrap();
        let again = ConfidentialChannel::encrypt_for(&payload, &alice, bob.public_key()).unwrap();
        assert_ne!(envelope.content, again.content);
        assert_eq!(
            ConfidentialChannel::decrypt_from(&envelope, &alice, bob.public_key()).unwrap(),
            payload
        );
        assert_eq!(
            ConfidentialChannel::decrypt_from(&again, &bob, alice.public_key()).unwrap(),
            payload
        );
    }
}

#[test]
fn what_the_cipher_gave_becomes_the_envelope() {
    let envelope = ConfidentialChannel::sealed(Some("abc?iv=def".to_string())).unwrap();
    assert_eq!(envelope.content, "abc?iv=def");
    assert_eq!(
        ConfidentialChannel::sealed(None).err(),
        Some(RecoveryError::TransportUnavailable)
    );
}

#[test]
fn generated_identities_are_whole_and_differ() {
    let a = Identity::generate();
    let b = Identity::generate();
    assert_eq!(a.public_key().bytes.len(), 32);
    assert!(!a.public_key().same(b.public_key()));
}

#[test]
fn dispatches_carry_the_shares_of_one_split() {
    let mut coordinator = RecoveryCoordinator::new(600);
    let helpers = helpers(5);
    let dispatches = start(&mut coordinator, &helpers, 3, 1_000);
    let mut shares = Vec::new();
    for (i, dispatch) in dispatches.iter().enumerate() {
        assert!(dispatch.recipient.same(helpers[i].public_key()));
        let bytes = ConfidentialChannel::decrypt_from(
            dispatch.sealed.as_ref().unwrap(),
            &helpers[i],
            &dispatch.sender,
        )
        .unwrap();
        let share = sabi_wallet::recovery::wire::decode_share(&bytes).unwrap();
        assert_eq!(share.index as usize, i + 1);
        assert_eq!(share.threshold, 3);
        assert_eq!(share.payload.len(), 32 + 4);
        shares.push(share);
    }
    assert!(shares.iter().all(|s| s.set_id == shares[0].set_id));
    shares.swap(0, 4);
    shares.truncate(3);
    let back = sabi_wallet::recovery::codec::SecretCodec::reconstruct(&shares, 3).unwrap();
    assert_eq!(back.expose(), &secret_bytes());
}

#[test]
fn handing_the_envelopes_back_recovers_the_secret() {
    let mut coordinator = RecoveryCoordinator::new(600);
    let helpers = helpers(4);
    let dispatches = start(&mut coordinator, &helpers, 2, 1_000);
    let r = coordinator
        .accept(
            WALLET,
            helpers[3].public_key().duplicate(),
            dispatches[3].sealed.as_ref().unwrap().duplicate(),
            1_001,
        )
        .unwrap();
    assert!(matches!(r, AcceptOutcome::Recorded(1)));
    let r = coordinator
        .accept(
            WALLET,
            helpers[1].public_key().duplicate(),
            dispatches[1].sealed.as_ref().unwrap().duplicate(),
            1_002,
        )
        .unwrap();
    match r {
        AcceptOutcome::Reconstructed(secret) => assert_eq!(secret.expose(), &secret_bytes()),
        AcceptOutcome::Recorded(_) => panic!("the second envelope reaches the threshold"),
    }
}

#[test]
fn expired_session_is_replaced_by_a_fresh_one_without_its_shares() {
    let mut coordinator = RecoveryCoordinator::new(60);
    let helpers = helpers(3);
    let old = start(&mut coordinator, &helpers, 3, 1_000);
    for i in 0..2 {
        coordinator
            .accept(WALLET, helpers[i].public_key().duplicate(), answer(&helpers[i], &old[i]), 1_010)
            .unwrap();
    }
    // the session was never swept; at its expiry a new one may start
    let fresh = coordinator
        .initiate(WALLET, &keys(&helpers), 3, &Secret::new(secret_bytes()), 1_060)
        .unwrap();
    assert_eq!(fresh.len(), 3);
    assert!(!fresh[0].sender.same(&old[0].sender));
    assert_eq!(coordinator.state(WALLET), SessionState::Collecting);
    // nothing of the old session counts
    let r = coordinator
        .accept(WALLET, helpers[2].public_key().duplicate(), answer(&helpers[2], &fresh[2]), 1_061)
        .unwrap();
    assert!(matches!(r, AcceptOutcome::Recorded(1)));
}
