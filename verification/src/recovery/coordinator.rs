//! The coordinator of recoveries: at most one session for each wallet,
//! started by `initiate`, fed by `accept`, ended by success, failure or
//! time.
//!
//! Every operation that changes a session takes the coordinator by
//! exclusive reference, so recording a share, checking the threshold and
//! reconstructing are one step that no other submission can come between.

use crate::recovery::channel::{
    decrypt_spec, ConfidentialChannel, Envelope, Identity, IdentityView, PubKey,
};
use crate::recovery::codec::{
    coefficients_fit, is_share_set, protected, split_spec, SecretCodec, ShareView,
};
use crate::recovery::collector::DepositView;
use crate::recovery::error::RecoveryError;
use crate::recovery::secret::{wipe, Secret};
use crate::recovery::session::{
    accept_step,
    ended,
    outcome_view,
    AcceptOutcome,
    RecoverySession,
    SessionState,
    SessionView,
};
use crate::recovery::wire::{encode_share, share_bytes};
use vstd::bytes::lemma_auto_spec_u64_to_from_le_bytes;
use vstd::prelude::*;

verus! {

/// What each of `sessions` holds.
pub open spec fn session_views(sessions: Seq<RecoverySession>) -> Seq<SessionView> {
    Seq::new(sessions.len(), |i: int| sessions[i]@)
}

/// Whether one of `sessions` belongs to `wallet`.
pub open spec fn has_wallet(sessions: Seq<SessionView>, wallet: u128) -> bool {
    exists|i: int| 0 <= i < sessions.len() && (#[trigger] sessions[i]).wallet_id == wallet
}

/// A place in `sessions` of a session of `wallet`.
pub open spec fn place_of_wallet(sessions: Seq<SessionView>, wallet: u128) -> int {
    choose|i: int| 0 <= i < sessions.len() && (#[trigger] sessions[i]).wallet_id == wallet
}

/// The sessions by wallet.
pub open spec fn by_wallet(sessions: Seq<SessionView>) -> Map<u128, SessionView> {
    Map::new(
        |wallet: u128| has_wallet(sessions, wallet),
        |wallet: u128| sessions[place_of_wallet(sessions, wallet)],
    )
}

/// No wallet has two sessions.
pub open spec fn distinct_wallets(sessions: Seq<SessionView>) -> bool {
    forall|i: int, j: int|
        0 <= i < sessions.len() && 0 <= j < sessions.len() && i != j ==> (
        #[trigger] sessions[i]).wallet_id != (#[trigger] sessions[j]).wallet_id
}

/// With distinct wallets, every session is found under its wallet.
proof fn lemma_by_wallet_at(sessions: Seq<SessionView>, i: int)
    requires
        distinct_wallets(sessions),
        0 <= i < sessions.len(),
    ensures
        by_wallet(sessions).contains_key(sessions[i].wallet_id),
        by_wallet(sessions)[sessions[i].wallet_id] == sessions[i],
{
    let w = sessions[i].wallet_id;
    assert(has_wallet(sessions, w));
    let p = place_of_wallet(sessions, w);
    assert(p == i);
}

/// Replacing the session of a wallet in the sequence replaces it in the
/// map.
proof fn lemma_by_wallet_update(sessions: Seq<SessionView>, i: int, s: SessionView)
    requires
        distinct_wallets(sessions),
        0 <= i < sessions.len(),
        s.wallet_id == sessions[i].wallet_id,
    ensures
        distinct_wallets(sessions.update(i, s)),
        by_wallet(sessions.update(i, s)) == by_wallet(sessions).insert(s.wallet_id, s),
{
    let after = sessions.update(i, s);
    assert forall|a: int, b: int|
        0 <= a < after.len() && 0 <= b < after.len() && a != b implies (#[trigger] after[a]).wallet_id
        != (#[trigger] after[b]).wallet_id by {
        assert(after[a].wallet_id == sessions[a].wallet_id);
        assert(after[b].wallet_id == sessions[b].wallet_id);
    }
    assert forall|w: u128| has_wallet(after, w) == has_wallet(sessions, w) by {
        if has_wallet(after, w) {
            let p = place_of_wallet(after, w);
            assert(sessions[p].wallet_id == w);
        }
        if has_wallet(sessions, w) {
            let p = place_of_wallet(sessions, w);
            assert(after[p].wallet_id == w);
        }
    }
    assert(has_wallet(sessions, s.wallet_id)) by {
        assert(sessions[i].wallet_id == s.wallet_id);
    }
    assert forall|w: u128| has_wallet(after, w) implies #[trigger] by_wallet(after)[w] == by_wallet(
        sessions,
    ).insert(s.wallet_id, s)[w] by {
        let p = place_of_wallet(after, w);
        assert(sessions[p].wallet_id == w);
        lemma_by_wallet_at(sessions, p);
        lemma_by_wallet_at(after, p);
    }
    assert(by_wallet(after) =~= by_wallet(sessions).insert(s.wallet_id, s));
}

/// Adding the session of a new wallet to the sequence adds it to the map.
proof fn lemma_by_wallet_push(sessions: Seq<SessionView>, s: SessionView)
    requires
        distinct_wallets(sessions),
        !has_wallet(sessions, s.wallet_id),
    ensures
        distinct_wallets(sessions.push(s)),
        by_wallet(sessions.push(s)) == by_wallet(sessions).insert(s.wallet_id, s),
{
    let after = sessions.push(s);
    assert forall|a: int, b: int|
        0 <= a < after.len() && 0 <= b < after.len() && a != b implies (#[trigger] after[a]).wallet_id
        != (#[trigger] after[b]).wallet_id by {
        if a < sessions.len() {
            assert(after[a] == sessions[a]);
        }
        if b < sessions.len() {
            assert(after[b] == sessions[b]);
        }
    }
    assert forall|w: u128| has_wallet(after, w) == (has_wallet(sessions, w) || w == s.wallet_id) by {
        if has_wallet(after, w) {
            let p = place_of_wallet(after, w);
            if p < sessions.len() {
                assert(sessions[p].wallet_id == w);
            }
        }
        if has_wallet(sessions, w) {
            let p = place_of_wallet(sessions, w);
            assert(after[p].wallet_id == w);
        }
        if w == s.wallet_id {
            assert(after[sessions.len() as int].wallet_id == w);
        }
    }
    assert forall|w: u128| has_wallet(after, w) implies #[trigger] by_wallet(after)[w] == by_wallet(
        sessions,
    ).insert(s.wallet_id, s)[w] by {
        let p = place_of_wallet(after, w);
        lemma_by_wallet_at(after, p);
        if p < sessions.len() {
            assert(sessions[p] == after[p]);
            lemma_by_wallet_at(sessions, p);
        }
    }
    assert(by_wallet(after) =~= by_wallet(sessions).insert(s.wallet_id, s));
}

/// A sealed share on its way to a helper.
#[derive(Debug)]
pub struct Dispatch {
    /// The helper the share is for.
    pub recipient: PubKey,
    /// The key of the session, to which the helper answers.
    pub sender: PubKey,
    /// The envelope, or why there is none.
    pub sealed: Result<Envelope, RecoveryError>,
}

/// Runs the recovery sessions of all wallets.
pub struct RecoveryCoordinator {
    sessions: Vec<RecoverySession>,
    ttl: u64,
}

/// What a coordinator holds.
pub struct CoordinatorView {
    /// How long a session lives.
    pub ttl: u64,
    /// The session of each wallet that has one.
    pub sessions: Map<u128, SessionView>,
}

impl View for RecoveryCoordinator {
    type V = CoordinatorView;

    closed spec fn view(&self) -> CoordinatorView {
        CoordinatorView { ttl: self.ttl, sessions: by_wallet(session_views(self.sessions@)) }
    }
}

/// Whether `wallet` has a session that collects and has not expired at
/// `now`.
pub open spec fn is_active(c: CoordinatorView, wallet: u128, now: u64) -> bool {
    &&& c.sessions.contains_key(wallet)
    &&& c.sessions[wallet].state == SessionState::Collecting
    &&& now < c.sessions[wallet].expires_at
}

/// When a session that starts at `now` expires: after the time to live, or
/// at the end of time.
pub open spec fn expiry(now: u64, ttl: u64) -> u64 {
    if now + ttl > u64::MAX {
        u64::MAX
    } else {
        (now + ttl) as u64
    }
}

/// The state of `wallet`.
pub open spec fn state_of(c: CoordinatorView, wallet: u128) -> SessionState {
    if c.sessions.contains_key(wallet) {
        c.sessions[wallet].state
    } else {
        SessionState::NoSession
    }
}

/// The session as a sweep at `now` leaves it.
pub open spec fn swept(s: SessionView, now: u64) -> SessionView {
    if s.state == SessionState::Collecting && now >= s.expires_at {
        ended(s, SessionState::Expired)
    } else {
        s
    }
}

/// What each of `keys` holds.
pub open spec fn key_views(keys: Seq<PubKey>) -> Seq<Seq<u8>> {
    Seq::new(keys.len(), |i: int| keys[i]@)
}

/// Why a recovery is not started, where the request itself decides it: the
/// wallet has a session that collects and has not expired, or else the
/// threshold is zero or exceeds the number of helpers, or there are more
/// than 255 helpers.
pub open spec fn initiate_refusal(
    c: CoordinatorView,
    wallet_id: u128,
    helpers: nat,
    k: u8,
    now: u64,
) -> Option<RecoveryError> {
    if is_active(c, wallet_id, now) {
        Some(RecoveryError::SessionAlreadyActive)
    } else if k < 1 || k > helpers || helpers > 255 {
        Some(RecoveryError::InvalidThreshold)
    } else {
        None
    }
}

/// What the dispatches of a started recovery carry: there is one split of
/// the secret into as many shares as there are helpers, with threshold `k`,
/// such that the envelope of helper `i`, where there is one, opens under
/// the key of the session and the key of that helper to share `i` of the
/// split, as it is written in bytes.
pub open spec fn carries_shares(
    identity: IdentityView,
    helpers: Seq<Seq<u8>>,
    secret: Seq<u8>,
    k: u8,
    dispatches: Seq<Dispatch>,
) -> bool {
    exists|set: Seq<ShareView>|
        {
            &&& #[trigger] is_share_set(set, secret, k, helpers.len() as u8)
            &&& forall|i: int|
                0 <= i < dispatches.len() ==> ((#[trigger] dispatches[i]).sealed matches Ok(env)
                    ==> decrypt_spec(env@, identity, helpers[i]) == Ok::<Seq<u8>, RecoveryError>(
                    share_bytes(set[i]),
                ))
        }
}

/// What a recovery that was started leaves: a fresh session for the wallet
/// in `Collecting`, in place of whatever the wallet had, with all other
/// wallets untouched; and one dispatch for each helper, in order, from the
/// key of the session, with an envelope that carries the share of that
/// helper, or `TransportUnavailable` where the share could not be sealed
/// for it.
pub open spec fn initiated(
    before: CoordinatorView,
    after: CoordinatorView,
    wallet_id: u128,
    helpers: Seq<Seq<u8>>,
    k: u8,
    secret: Seq<u8>,
    now: u64,
    dispatches: Seq<Dispatch>,
) -> bool {
    &&& after.ttl == before.ttl
    &&& after.sessions.contains_key(wallet_id)
    &&& after.sessions[wallet_id].identity is Some
    &&& after.sessions == before.sessions.insert(
        wallet_id,
        SessionView {
            wallet_id,
            threshold: k,
            total: helpers.len() as u8,
            created_at: now,
            expires_at: expiry(now, before.ttl),
            state: SessionState::Collecting,
            identity: after.sessions[wallet_id].identity,
            deposits: Seq::<DepositView>::empty(),
        },
    )
    &&& dispatches.len() == helpers.len()
    &&& forall|i: int|
        0 <= i < dispatches.len() ==> {
            &&& (#[trigger] dispatches[i]).recipient@ == helpers[i]
            &&& dispatches[i].sender@ == after.sessions[wallet_id].identity.unwrap().public
            &&& dispatches[i].sealed matches Err(e) ==> e == RecoveryError::TransportUnavailable
        }
    &&& carries_shares(after.sessions[wallet_id].identity.unwrap(), helpers, secret, k, dispatches)
}

impl RecoveryCoordinator {
    /// Every session holds together, and no wallet has two.
    pub closed spec fn wf(&self) -> bool {
        &&& distinct_wallets(session_views(self.sessions@))
        &&& forall|i: int| 0 <= i < self.sessions@.len() ==> (#[trigger] self.sessions@[i]).wf()
    }

    /// A coordinator without sessions, whose sessions live for `ttl`.
    pub fn new(ttl: u64) -> (c: RecoveryCoordinator)
        ensures
            c.wf(),
            c@.ttl == ttl,
            c@.sessions == Map::<u128, SessionView>::empty(),
    {
        let c = RecoveryCoordinator { sessions: Vec::new(), ttl };
        assert(c@.sessions =~= Map::<u128, SessionView>::empty());
        c
    }

    /// The place of the session of `wallet`, if it has one.
    fn find(&self, wallet: u128) -> (place: Option<usize>)
        requires
            self.wf(),
        ensures
            match place {
                Some(i) => i < self.sessions@.len() && self.sessions@[i as int]@.wallet_id
                    == wallet && self@.sessions.contains_key(wallet) && self@.sessions[wallet]
                    == self.sessions@[i as int]@,
                None => !self@.sessions.contains_key(wallet) && !has_wallet(
                    session_views(self.sessions@),
                    wallet,
                ),
            },
    {
        let ghost views = session_views(self.sessions@);
        let mut i: usize = 0;
        while i < self.sessions.len()
            invariant
                i <= self.sessions.len(),
                self.wf(),
                views == session_views(self.sessions@),
                forall|j: int| 0 <= j < i ==> (#[trigger] views[j]).wallet_id != wallet,
            decreases self.sessions.len() - i,
        {
            if self.sessions[i].wallet_id() == wallet {
                proof {
                    assert(views[i as int] == self.sessions@[i as int]@);
                    lemma_by_wallet_at(views, i as int);
                }
                return Some(i);
            }
            assert(views[i as int] == self.sessions@[i as int]@);
            i = i + 1;
        }
        None
    }

    /// The state of `wallet`.
    pub fn state(&self, wallet: u128) -> (state: SessionState)
        requires
            self.wf(),
        ensures
            state == state_of(self@, wallet),
    {
        match self.find(wallet) {
            Some(i) => self.sessions[i].state(),
            None => SessionState::NoSession,
        }
    }

    /// Puts `session` in the place of the session of its wallet, or adds it.
    fn install(&mut self, place: Option<usize>, session: RecoverySession)
        requires
            old(self).wf(),
            session.wf(),
            match place {
                Some(i) => i < old(self).sessions@.len() && old(self).sessions@[i as int]@.wallet_id
                    == session@.wallet_id,
                None => !has_wallet(session_views(old(self).sessions@), session@.wallet_id),
            },
        ensures
            final(self).wf(),
            final(self)@.ttl == old(self)@.ttl,
            final(self)@.sessions == old(self)@.sessions.insert(session@.wallet_id, session@),
    {
        let ghost before = session_views(self.sessions@);
        let ghost s = session@;
        match place {
            Some(i) => {
                proof {
                    lemma_by_wallet_update(before, i as int, s);
                }
                self.sessions.set(i, session);
                assert(session_views(self.sessions@) =~= before.update(i as int, s));
            },
            None => {
                proof {
                    lemma_by_wallet_push(before, s);
                }
                self.sessions.push(session);
                assert(session_views(self.sessions@) =~= before.push(s));
            },
        }
    }

    /// Starts the recovery of `wallet_id`: splits `secret` into one share
    /// for each of `helper_pubkeys` with threshold `k`, seals each share for
    /// its helper with a key made for the session, and opens the session in
    /// `Collecting`; the wallet passes through `Requested` within the call.
    /// The sealed shares are returned for delivery.
    ///
    /// Fails with `SessionAlreadyActive` exactly when the wallet has a
    /// session that collects and has not expired; otherwise with
    /// `InvalidThreshold` exactly when `k` is zero or exceeds the number of
    /// helpers, or there are more than 255 helpers. A failure changes
    /// nothing. In every other case the recovery is started: a session that
    /// has ended or expired is replaced, and a share that cannot be sealed
    /// for its helper is reported in its dispatch and does not fail the
    /// call.
    pub fn initiate(
        &mut self,
        wallet_id: u128,
        helper_pubkeys: &Vec<PubKey>,
        k: u8,
        secret: &Secret,
        now: u64,
    ) -> (r: Result<Vec<Dispatch>, RecoveryError>)
        requires
            old(self).wf(),
            2 * (secret@.len() + 18) <= usize::MAX,
        ensures
            final(self).wf(),
            match r {
                Ok(dispatches) => {
                    &&& initiate_refusal(
                        old(self)@,
                        wallet_id,
                        helper_pubkeys@.len(),
                        k,
                        now,
                    ) is None
                    &&& initiated(
                        old(self)@,
                        final(self)@,
                        wallet_id,
                        key_views(helper_pubkeys@),
                        k,
                        secret@,
                        now,
                        dispatches@,
                    )
                },
                Err(e) => {
                    &&& final(self)@ == old(self)@
                    &&& initiate_refusal(old(self)@, wallet_id, helper_pubkeys@.len(), k, now)
                        == Some(e)
                },
            },
    {
        let place = self.find(wallet_id);
        match place {
            Some(i) => {
                if self.sessions[i].is_active(now) {
                    return Err(RecoveryError::SessionAlreadyActive);
                }
            },
            None => {},
        }
        if k < 1 || helper_pubkeys.len() > 255 || k as usize > helper_pubkeys.len() {
            return Err(RecoveryError::InvalidThreshold);
        }
        let n: u8 = helper_pubkeys.len() as u8;
        let identity = Identity::generate();
        let set = SecretCodec::split(secret, k, n).unwrap();
        proof {
            let (coefficients, set_id) = choose|coefficients: Seq<Seq<u8>>, set_id: u64|
                coefficients_fit(coefficients, protected(secret@).len(), k) && set@
                    == #[trigger] split_spec(secret@, k, n, coefficients, set_id);
            let whole = split_spec(secret@, k, n, coefficients, set_id);
            assert(set@.len() == n);
            assert forall|j: int| 0 <= j < set.shares@.len() implies (
            #[trigger] set.shares@[j]).payload@.len() == secret@.len() + 4 by {
                assert(set@[j] == whole[j]);
                assert(set.shares@[j]@ == set@[j]);
            }
            lemma_auto_spec_u64_to_from_le_bytes();
        }
        let mut dispatches: Vec<Dispatch> = Vec::new();
        let mut i: usize = 0;
        while i < helper_pubkeys.len()
            invariant
                i <= helper_pubkeys.len(),
                set.shares@.len() == helper_pubkeys@.len(),
                forall|j: int|
                    0 <= j < set.shares@.len() ==> (#[trigger] set.shares@[j]).payload@.len()
                        == secret@.len() + 4,
                2 * (secret@.len() + 18) <= usize::MAX,
                dispatches@.len() == i,
                forall|j: int|
                    0 <= j < i ==> {
                        &&& (#[trigger] dispatches@[j]).recipient@ == helper_pubkeys@[j]@
                        &&& dispatches@[j].sender@ == identity@.public
                        &&& dispatches@[j].sealed matches Err(e) ==> e
                            == RecoveryError::TransportUnavailable
                        &&& dispatches@[j].sealed matches Ok(env) ==> decrypt_spec(
                            env@,
                            identity@,
                            helper_pubkeys@[j]@,
                        ) == Ok::<Seq<u8>, RecoveryError>(share_bytes(set.shares@[j]@))
                    },
            decreases helper_pubkeys.len() - i,
        {
            let mut bytes = encode_share(&set.shares[i]);
            proof {
                lemma_auto_spec_u64_to_from_le_bytes();
            }
            let sealed = ConfidentialChannel::encrypt_for(&bytes, &identity, &helper_pubkeys[i]);
            wipe(&mut bytes);
            dispatches.push(
                Dispatch {
                    recipient: helper_pubkeys[i].duplicate(),
                    sender: identity.public_key().duplicate(),
                    sealed,
                },
            );
            i = i + 1;
        }
        let expires_at = if now > u64::MAX - self.ttl {
            u64::MAX
        } else {
            now + self.ttl
        };
        let ghost key = identity@;
        let session = RecoverySession::open(wallet_id, k, n, now, expires_at, identity);
        self.install(place, session);
        proof {
            assert(self@.sessions[wallet_id].identity == Some(key));
            assert forall|j: int| 0 <= j < dispatches@.len() implies ((
            #[trigger] dispatches@[j]).sealed matches Ok(env) ==> decrypt_spec(
                env@,
                key,
                key_views(helper_pubkeys@)[j],
            ) == Ok::<Seq<u8>, RecoveryError>(share_bytes(set@[j]))) by {
                assert(set@[j] == set.shares@[j]@);
            }
            let helpers = key_views(helper_pubkeys@);
            assert(helpers.len() as u8 == n);
            assert(is_share_set(set@, secret@, k, helpers.len() as u8));
            assert(carries_shares(key, helpers, secret@, k, dispatches@));
        }
        Ok(dispatches)
    }

    /// Takes the share that `helper_pubkey` hands in for `wallet_id` at
    /// `now`.
    ///
    /// Fails with `NoActiveSession` when the wallet has no session;
    /// otherwise the session takes the submission as `accept_step` says.
    /// Other wallets are not touched.
    pub fn accept(&mut self, wallet_id: u128, helper_pubkey: PubKey, envelope: Envelope, now: u64) -> (r:
        Result<AcceptOutcome, RecoveryError>)
        requires
            old(self).wf(),
        ensures
            final(self).wf(),
            final(self)@.ttl == old(self)@.ttl,
            !old(self)@.sessions.contains_key(wallet_id) ==> final(self)@ == old(self)@ && r matches Err(
                RecoveryError::NoActiveSession,
            ),
            old(self)@.sessions.contains_key(wallet_id) ==> {
                &&& final(self)@.sessions == old(self)@.sessions.insert(
                    wallet_id,
                    accept_step(old(self)@.sessions[wallet_id], helper_pubkey@, envelope@, now).0,
                )
                &&& outcome_view(r) == accept_step(
                    old(self)@.sessions[wallet_id],
                    helper_pubkey@,
                    envelope@,
                    now,
                ).1
            },
    {
        match self.find(wallet_id) {
            None => Err(RecoveryError::NoActiveSession),
            Some(i) => {
                let ghost before = session_views(self.sessions@);
                let mut session = self.sessions.remove(i);
                let r = session.accept(helper_pubkey, envelope, now);
                proof {
                    lemma_by_wallet_update(before, i as int, session@);
                }
                self.sessions.insert(i, session);
                assert(session_views(self.sessions@) =~= before.update(i as int, session@));
                r
            },
        }
    }

    /// Ends as `Expired` every session that collects and is at or past its
    /// expiry at `now`.
    pub fn sweep(&mut self, now: u64)
        requires
            old(self).wf(),
        ensures
            final(self).wf(),
            final(self)@.ttl == old(self)@.ttl,
            final(self)@.sessions.dom() == old(self)@.sessions.dom(),
            forall|w: u128|
                old(self)@.sessions.contains_key(w) ==> #[trigger] final(self)@.sessions[w]
                    == swept(old(self)@.sessions[w], now),
    {
        let ghost start = session_views(self.sessions@);
        let mut i: usize = 0;
        while i < self.sessions.len()
            invariant
                i <= self.sessions.len(),
                self.wf(),
                self.ttl == old(self).ttl,
                start == session_views(old(self).sessions@),
                start.len() == self.sessions@.len(),
                forall|j: int|
                    0 <= j < start.len() ==> (#[trigger] self.sessions@[j])@ == if j < i {
                        swept(start[j], now)
                    } else {
                        start[j]
                    },
            decreases self.sessions.len() - i,
        {
            let ghost before = session_views(self.sessions@);
            let mut session = self.sessions.remove(i);
            session.expire_if_due(now);
            proof {
                lemma_by_wallet_update(before, i as int, session@);
            }
            self.sessions.insert(i, session);
            assert(session_views(self.sessions@) =~= before.update(i as int, session@));
            i = i + 1;
        }
        proof {
            let after = session_views(self.sessions@);
            assert forall|w: u128| has_wallet(after, w) == has_wallet(start, w) by {
                if has_wallet(after, w) {
                    let p = place_of_wallet(after, w);
                    assert(start[p].wallet_id == w);
                }
                if has_wallet(start, w) {
                    let p = place_of_wallet(start, w);
                    assert(after[p].wallet_id == w);
                }
            }
            assert(final(self)@.sessions.dom() =~= old(self)@.sessions.dom());
            assert forall|w: u128| old(self)@.sessions.contains_key(w) implies #[trigger] final(self)@.sessions[w] == swept(old(self)@.sessions[w], now) by {
                let p = place_of_wallet(start, w);
                assert(after[p].wallet_id == w);
                lemma_by_wallet_at(start, p);
                lemma_by_wallet_at(after, p);
            }
        }
    }
}

} // verus!
