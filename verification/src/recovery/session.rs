//! One wallet's recovery session: its life cycle and what a submission does
//! to it.

use crate::recovery::channel::{
    decrypt_spec,
    ConfidentialChannel,
    Envelope,
    Identity,
    IdentityView,
    PubKey,
};
use crate::recovery::codec::{reconstruct_spec, SecretCodec, Share, ShareView, share_views};
use crate::recovery::collector::{
    deposit_views,
    has_deposit,
    lemma_place_of,
    lemma_upsert,
    upsert,
    CollectionOutcome,
    Deposit,
    DepositView,
    ShareCollector,
};
use crate::recovery::error::RecoveryError;
use crate::recovery::secret::{wipe, Secret};
use crate::recovery::wire::{decode_share, share_of_bytes};
use vstd::prelude::*;

verus! {

/// Where a wallet stands in its recovery.
#[derive(Clone, Copy, Debug, PartialEq, Eq, Structural)]
pub enum SessionState {
    /// No recovery was asked for.
    NoSession,
    /// A recovery was asked for; the shares are being made and sealed.
    Requested,
    /// The shares are out; submissions are taken.
    Collecting,
    /// The secret was put together and handed over.
    Reconstructed,
    /// The session outlived its time to live.
    Expired,
    /// The shares handed in did not fit together.
    Aborted,
}

/// The transition table: whether a wallet may pass from `from` to `to`.
pub open spec fn may_follow(from: SessionState, to: SessionState) -> bool {
    match (from, to) {
        (SessionState::NoSession, SessionState::Requested) => true,
        (SessionState::Requested, SessionState::Collecting) => true,
        (SessionState::Collecting, SessionState::Reconstructed) => true,
        (SessionState::Collecting, SessionState::Expired) => true,
        (SessionState::Collecting, SessionState::Aborted) => true,
        (SessionState::Reconstructed, SessionState::Requested) => true,
        (SessionState::Expired, SessionState::Requested) => true,
        (SessionState::Aborted, SessionState::Requested) => true,
        _ => false,
    }
}

/// A state in which the session holds no shares and no key any more.
pub open spec fn is_ended(state: SessionState) -> bool {
    state == SessionState::Reconstructed || state == SessionState::Expired || state
        == SessionState::Aborted
}

impl SessionState {
    /// Whether a wallet may pass from `self` to `to`.
    pub fn can_become(self, to: SessionState) -> (allowed: bool)
        ensures
            allowed == may_follow(self, to),
    {
        match (self, to) {
            (SessionState::NoSession, SessionState::Requested) => true,
            (SessionState::Requested, SessionState::Collecting) => true,
            (SessionState::Collecting, SessionState::Reconstructed) => true,
            (SessionState::Collecting, SessionState::Expired) => true,
            (SessionState::Collecting, SessionState::Aborted) => true,
            (SessionState::Reconstructed, SessionState::Requested) => true,
            (SessionState::Expired, SessionState::Requested) => true,
            (SessionState::Aborted, SessionState::Requested) => true,
            _ => false,
        }
    }
}

/// A recovery attempt of one wallet.
pub struct RecoverySession {
    wallet_id: u128,
    threshold: u8,
    total: u8,
    created_at: u64,
    expires_at: u64,
    state: SessionState,
    identity: Option<Identity>,
    collector: ShareCollector,
}

/// What a session holds.
pub struct SessionView {
    pub wallet_id: u128,
    pub threshold: u8,
    pub total: u8,
    pub created_at: u64,
    pub expires_at: u64,
    pub state: SessionState,
    /// The key of the session, for as long as it collects.
    pub identity: Option<IdentityView>,
    /// What the helpers handed in, one envelope for each.
    pub deposits: Seq<DepositView>,
}

impl View for RecoverySession {
    type V = SessionView;

    closed spec fn view(&self) -> SessionView {
        SessionView {
            wallet_id: self.wallet_id,
            threshold: self.threshold,
            total: self.total,
            created_at: self.created_at,
            expires_at: self.expires_at,
            state: self.state,
            identity: match self.identity {
                Some(id) => Some(id@),
                None => None,
            },
            deposits: self.collector@.deposits,
        }
    }
}

/// What a submission holds once the session has opened it.
pub enum AcceptView {
    Recorded(nat),
    Reconstructed(Seq<u8>),
}

/// What a submission came to.
pub enum AcceptOutcome {
    /// The share is kept; the count of helpers that have handed in is given.
    Recorded(usize),
    /// The threshold was reached and the secret put together.
    Reconstructed(Secret),
}

impl View for AcceptOutcome {
    type V = AcceptView;

    open spec fn view(&self) -> AcceptView {
        match self {
            AcceptOutcome::Recorded(count) => AcceptView::Recorded(*count as nat),
            AcceptOutcome::Reconstructed(secret) => AcceptView::Reconstructed(secret@),
        }
    }
}

/// The share that a deposit holds for the key of the session, where it
/// opens to one.
pub open spec fn deposit_share(identity: IdentityView, deposit: DepositView) -> Option<ShareView> {
    match decrypt_spec(deposit.envelope, identity, deposit.helper) {
        Ok(payload) => share_of_bytes(payload),
        Err(_) => None,
    }
}

/// The shares that `deposits` hold.
pub open spec fn shares_of(identity: IdentityView, deposits: Seq<DepositView>) -> Seq<ShareView> {
    Seq::new(deposits.len(), |i: int| deposit_share(identity, deposits[i]).unwrap())
}

/// Every deposit opens to a share.
pub open spec fn all_open(identity: IdentityView, deposits: Seq<DepositView>) -> bool {
    forall|i: int|
        0 <= i < deposits.len() ==> deposit_share(identity, #[trigger] deposits[i]) is Some
}

/// The session after it has ended in `state`: no key, no shares.
pub open spec fn ended(s: SessionView, state: SessionState) -> SessionView {
    SessionView { state, identity: None, deposits: Seq::<DepositView>::empty(), ..s }
}

/// What a submission does to a session, and what it comes to.
///
/// Outside `Collecting` nothing changes: the answer is `Expired` for an
/// expired session and `NoActiveSession` otherwise. A submission at or
/// after the expiry ends the session as `Expired`. An envelope that does
/// not open to a share is refused with `DecryptionFailed` and changes
/// nothing. Otherwise the envelope is kept in place of an earlier one of
/// the same helper. When a new helper thereby brings the count to the
/// threshold, the shares are put together: a secret ends the session as
/// `Reconstructed`; too few distinct shares leave it collecting; anything
/// else ends it as `Aborted` with `InconsistentShares`.
pub open spec fn accept_step(s: SessionView, helper: Seq<u8>, envelope: Seq<char>, now: u64) -> (
    SessionView,
    Result<AcceptView, RecoveryError>,
) {
    let deposit = DepositView { helper, envelope };
    if s.state == SessionState::Expired {
        (s, Err(RecoveryError::Expired))
    } else if s.state != SessionState::Collecting {
        (s, Err(RecoveryError::NoActiveSession))
    } else if now >= s.expires_at {
        (ended(s, SessionState::Expired), Err(RecoveryError::Expired))
    } else if deposit_share(s.identity.unwrap(), deposit) is None {
        (s, Err(RecoveryError::DecryptionFailed))
    } else {
        let after = upsert(s.deposits, deposit);
        let kept = SessionView { deposits: after, ..s };
        if has_deposit(s.deposits, helper) || after.len() < s.threshold {
            (kept, Ok(AcceptView::Recorded(after.len())))
        } else {
            match reconstruct_spec(shares_of(s.identity.unwrap(), after), s.threshold) {
                Ok(secret) => (
                    ended(s, SessionState::Reconstructed),
                    Ok(AcceptView::Reconstructed(secret)),
                ),
                Err(RecoveryError::InsufficientShares) => (
                    kept,
                    Ok(AcceptView::Recorded(after.len())),
                ),
                Err(_) => (ended(s, SessionState::Aborted), Err(RecoveryError::InconsistentShares)),
            }
        }
    }
}

/// What the result of a submission stands for.
pub open spec fn outcome_view(r: Result<AcceptOutcome, RecoveryError>) -> Result<
    AcceptView,
    RecoveryError,
> {
    match r {
        Ok(outcome) => Ok(outcome@),
        Err(e) => Err(e),
    }
}

/// A session that holds together.
pub open spec fn session_wf(s: SessionView) -> bool {
    &&& 1 <= s.threshold <= s.total
    &&& s.state == SessionState::Collecting || is_ended(s.state)
    &&& s.state == SessionState::Collecting ==> s.identity is Some && all_open(
        s.identity.unwrap(),
        s.deposits,
    )
    &&& is_ended(s.state) ==> s.identity is None && s.deposits.len() == 0
}

/// A step keeps a session together, never leaves an ended state, and
/// follows the transition table where it changes the state.
pub proof fn lemma_accept_step(s: SessionView, helper: Seq<u8>, envelope: Seq<char>, now: u64)
    requires
        session_wf(s),
    ensures
        session_wf(accept_step(s, helper, envelope, now).0),
        accept_step(s, helper, envelope, now).0.state != s.state ==> may_follow(
            s.state,
            accept_step(s, helper, envelope, now).0.state,
        ),
        is_ended(s.state) ==> accept_step(s, helper, envelope, now).0 == s && accept_step(
            s,
            helper,
            envelope,
            now,
        ).1 is Err,
        accept_step(s, helper, envelope, now).1 matches Ok(AcceptView::Reconstructed(_))
            ==> accept_step(s, helper, envelope, now).0.state == SessionState::Reconstructed,
{
    let deposit = DepositView { helper, envelope };
    if s.state == SessionState::Collecting && now < s.expires_at && deposit_share(
        s.identity.unwrap(),
        deposit,
    ) is Some {
        let after = upsert(s.deposits, deposit);
        lemma_place_of(s.deposits, helper);
        assert forall|i: int| 0 <= i < after.len() implies deposit_share(
            s.identity.unwrap(),
            #[trigger] after[i],
        ) is Some by {
            if i < s.deposits.len() && i != crate::recovery::collector::place_of(
                s.deposits,
                helper,
            ) {
                assert(after[i] == s.deposits[i]);
            }
        }
    }
}

impl RecoverySession {
    /// The session holds together, and so does its collector.
    pub closed spec fn wf(&self) -> bool {
        &&& session_wf(self@)
        &&& self.collector.wf()
        &&& self.collector@.session_id == self.wallet_id
        &&& self.collector@.threshold == self.threshold
        &&& self.identity matches Some(id) ==> id.wf()
    }

    /// A session in `Collecting`, with the key `identity`, that expires at
    /// `expires_at`.
    pub fn open(
        wallet_id: u128,
        threshold: u8,
        total: u8,
        created_at: u64,
        expires_at: u64,
        identity: Identity,
    ) -> (session: RecoverySession)
        requires
            1 <= threshold <= total,
            identity.wf(),
        ensures
            session.wf(),
            session@ == (SessionView {
                wallet_id,
                threshold,
                total,
                created_at,
                expires_at,
                state: SessionState::Collecting,
                identity: Some(identity@),
                deposits: Seq::<DepositView>::empty(),
            }),
    {
        RecoverySession {
            wallet_id,
            threshold,
            total,
            created_at,
            expires_at,
            state: SessionState::Collecting,
            identity: Some(identity),
            collector: ShareCollector::new(wallet_id, threshold),
        }
    }

    /// The wallet of the session.
    pub fn wallet_id(&self) -> (id: u128)
        ensures
            id == self@.wallet_id,
    {
        self.wallet_id
    }

    /// The state of the session.
    pub fn state(&self) -> (state: SessionState)
        ensures
            state == self@.state,
    {
        self.state
    }

    /// When the session expires.
    pub fn expires_at(&self) -> (at: u64)
        ensures
            at == self@.expires_at,
    {
        self.expires_at
    }

    /// Whether the session stands in the way of a new one at `now`: it
    /// collects and has not expired.
    pub fn is_active(&self, now: u64) -> (active: bool)
        ensures
            active == (self@.state == SessionState::Collecting && now < self@.expires_at),
    {
        self.state == SessionState::Collecting && now < self.expires_at
    }

    /// Ends the session in `state`: the key and the shares are discarded.
    pub fn end(&mut self, state: SessionState)
        requires
            old(self).wf(),
            is_ended(state),
        ensures
            final(self).wf(),
            final(self)@ == ended(old(self)@, state),
    {
        self.state = state;
        self.identity = None;
        self.collector.clear(self.wallet_id);
    }

    /// Ends the session as `Expired` if it collects and `now` is at or past
    /// its expiry.
    pub fn expire_if_due(&mut self, now: u64)
        requires
            old(self).wf(),
        ensures
            final(self).wf(),
            final(self)@ == if old(self)@.state == SessionState::Collecting && now >= old(self)@.expires_at {
                ended(old(self)@, SessionState::Expired)
            } else {
                old(self)@
            },
    {
        if self.state == SessionState::Collecting && now >= self.expires_at {
            self.end(SessionState::Expired);
        }
    }

    /// Opens every deposit with the key of the session.
    fn open_deposits(identity: &Identity, deposits: &Vec<Deposit>) -> (shares: Vec<Share>)
        requires
            all_open(identity@, deposit_views(deposits@)),
        ensures
            share_views(shares@) == shares_of(identity@, deposit_views(deposits@)),
    {
        let ghost views = deposit_views(deposits@);
        let mut shares: Vec<Share> = Vec::new();
        let mut i: usize = 0;
        while i < deposits.len()
            invariant
                i <= deposits.len(),
                views == deposit_views(deposits@),
                all_open(identity@, views),
                shares@.len() == i,
                forall|j: int|
                    0 <= j < i ==> (#[trigger] shares@[j])@ == deposit_share(
                        identity@,
                        views[j],
                    ).unwrap(),
            decreases deposits.len() - i,
        {
            let d = &deposits[i];
            assert(d@ == views[i as int]);
            assert(deposit_share(identity@, views[i as int]) is Some);
            match ConfidentialChannel::decrypt_from(&d.envelope, identity, &d.helper) {
                Ok(mut payload) => {
                    match decode_share(&payload) {
                        Some(share) => {
                            shares.push(share);
                        },
                        None => {
                            assert(false);
                        },
                    }
                    wipe(&mut payload);
                },
                Err(_) => {
                    assert(false);
                },
            }
            i = i + 1;
        }
        assert(share_views(shares@) =~= shares_of(identity@, views));
        shares
    }

    /// Takes the share that `helper` hands in at `now`.
    pub fn accept(&mut self, helper: PubKey, envelope: Envelope, now: u64) -> (r: Result<
        AcceptOutcome,
        RecoveryError,
    >)
        requires
            old(self).wf(),
        ensures
            final(self).wf(),
            (final(self)@, outcome_view(r)) == accept_step(old(self)@, helper@, envelope@, now),
    {
        let ghost before = self@;
        let ghost deposit = DepositView { helper: helper@, envelope: envelope@ };
        proof {
            lemma_accept_step(before, helper@, envelope@, now);
        }
        if self.state == SessionState::Expired {
            return Err(RecoveryError::Expired);
        }
        if self.state != SessionState::Collecting {
            return Err(RecoveryError::NoActiveSession);
        }
        if now >= self.expires_at {
            self.end(SessionState::Expired);
            return Err(RecoveryError::Expired);
        }
        let readable = match &self.identity {
            Some(identity) => {
                match ConfidentialChannel::decrypt_from(&envelope, identity, &helper) {
                    Ok(mut payload) => {
                        let share = decode_share(&payload);
                        wipe(&mut payload);
                        share.is_some()
                    },
                    Err(_) => false,
                }
            },
            None => false,
        };
        if !readable {
            return Err(RecoveryError::DecryptionFailed);
        }
        proof {
            lemma_upsert(before.deposits, deposit);
        }
        match self.collector.record(self.wallet_id, helper, envelope) {
            Err(_) => Err(RecoveryError::NoActiveSession),
            Ok(CollectionOutcome::Recorded) => Ok(AcceptOutcome::Recorded(self.collector.progress())),
            Ok(CollectionOutcome::ThresholdReached(all)) => {
                let attempt = match &self.identity {
                    Some(identity) => {
                        let shares = RecoverySession::open_deposits(identity, &all);
                        SecretCodec::reconstruct(&shares, self.threshold)
                    },
                    None => Err(RecoveryError::InconsistentShares),
                };
                match attempt {
                    Ok(secret) => {
                        self.end(SessionState::Reconstructed);
                        Ok(AcceptOutcome::Reconstructed(secret))
                    },
                    Err(RecoveryError::InsufficientShares) => Ok(
                        AcceptOutcome::Recorded(self.collector.progress()),
                    ),
                    Err(_) => {
                        self.end(SessionState::Aborted);
                        Err(RecoveryError::InconsistentShares)
                    },
                }
            },
        }
    }
}

} // verus!
