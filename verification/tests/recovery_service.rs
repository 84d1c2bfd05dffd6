use sabi_wallet::error::AppError;
use sabi_wallet::recovery::channel::{ConfidentialChannel, Identity};
use sabi_wallet::recovery::coordinator::RecoveryCoordinator;
use sabi_wallet::recovery::error::RecoveryError;
use sabi_wallet::recovery::secret::Secret;
use sabi_wallet::recovery::session::AcceptOutcome;
use sabi_wallet::services::recovery_service::{
    initiate_recovery_request, read_helpers, recovery_failure, submit_recovery_share,
};

const WALLET: &str = "123e4567-e89b-12d3-a456-426614174000";

fn hex(bytes: &[u8]) -> String {
    bytes.iter().map(|b| format!("{:02x}", b)).collect()
}

#[test]
fn recovery_over_text() {
    let mut coordinator = RecoveryCoordinator::new(3_600);
    let helpers: Vec<Identity> = (0..3).map(|_| Identity::generate()).collect();
    let npubs: Vec<String> = helpers.iter().map(|h| hex(&h.public_key().bytes)).collect();
    let secret: Vec<u8> = (100..132).collect();
    let dispatches = initiate_recovery_request(
        &mut coordinator,
        WALLET,
        &npubs,
        2,
        &Secret::new(secret.clone()),
        10,
    )
    .unwrap();
    assert_eq!(dispatches.len(), 3);
    let again =
        initiate_recovery_request(&mut coordinator, WALLET, &npubs, 2, &Secret::new(secret.clone()), 11);
    assert!(matches!(again, Err(AppError::Conflict(_))));

    let mut outcomes = Vec::new();
    for i in [2usize, 0] {
        let sealed = dispatches[i].sealed.as_ref().unwrap();
        let share =
            ConfidentialChannel::decrypt_from(sealed, &helpers[i], &dispatches[i].sender).unwrap();
        let envelope =
            ConfidentialChannel::encrypt_for(&share, &helpers[i], &dispatches[i].sender).unwrap();
        outcomes.push(
            submit_recovery_share(&mut coordinator, WALLET, &envelope.content, &npubs[i], 20).unwrap(),
        );
    }
    assert!(matches!(outcomes[0], AcceptOutcome::Recorded(1)));
    match &outcomes[1] {
        AcceptOutcome::Reconstructed(found) => assert_eq!(found.expose(), &secret),
        AcceptOutcome::Recorded(_) => panic!("the second share reaches the threshold"),
    }
    let late = submit_recovery_share(&mut coordinator, WALLET, "x", &npubs[1], 21);
    assert!(matches!(late, Err(AppError::NotFound(_))));
}

#[test]
fn unreadable_requests_are_bad_requests() {
    let mut coordinator = RecoveryCoordinator::new(3_600);
    let helper = hex(&Identity::generate().public_key().bytes);
    let secret = Secret::new(vec![1; 32]);
    let r = initiate_recovery_request(&mut coordinator, "no id", &vec![helper.clone()], 1, &secret, 1);
    match r {
        Err(AppError::BadRequest(m)) => assert_eq!(m, "Invalid wallet ID"),
        other => panic!("{:?}", other.map(|d| d.len())),
    }
    let r = initiate_recovery_request(&mut coordinator, WALLET, &vec!["npub?".into()], 1, &secret, 1);
    match r {
        Err(AppError::BadRequest(m)) => assert_eq!(m, "Invalid helper npub"),
        other => panic!("{:?}", other.map(|d| d.len())),
    }
    let r = initiate_recovery_request(&mut coordinator, WALLET, &vec![helper.clone()], 2, &secret, 1);
    assert!(matches!(r, Err(AppError::BadRequest(_))));
    assert!(matches!(
        submit_recovery_share(&mut coordinator, "no id", "e", &helper, 1),
        Err(AppError::BadRequest(_))
    ));
    assert!(matches!(
        submit_recovery_share(&mut coordinator, WALLET, "e", "no key", 1),
        Err(AppError::BadRequest(_))
    ));
    assert!(matches!(
        submit_recovery_share(&mut coordinator, WALLET, "e", &helper, 1),
        Err(AppError::NotFound(_))
    ));
    assert!(read_helpers(&vec![helper.clone(), helper]).unwrap().len() == 2);
    assert!(read_helpers(&Vec::new()).unwrap().is_empty());
}

#[test]
fn recovery_failures_show_as_http() {
    let cases = [
        (RecoveryError::InvalidThreshold, 400),
        (RecoveryError::SessionAlreadyActive, 409),
        (RecoveryError::NoActiveSession, 404),
        (RecoveryError::DecryptionFailed, 400),
        (RecoveryError::InsufficientShares, 409),
        (RecoveryError::InconsistentShares, 500),
        (RecoveryError::TransportUnavailable, 500),
        (RecoveryError::Expired, 404),
    ];
    for (error, status) in cases {
        assert_eq!(recovery_failure(error).status_code(), status, "{:?}", error);
    }
}
