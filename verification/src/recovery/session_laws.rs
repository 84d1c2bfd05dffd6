//! What holds of a session over a run of submissions.

use crate::recovery::channel::decrypt_spec;
use crate::recovery::codec::{
    coefficients_fit, compatible, consistent, indices, is_share_set, positions, protected,
    split_spec, ShareView,
};
use crate::recovery::coordinator::{carries_shares, Dispatch};
use crate::recovery::wire::{law_share_round_trip, share_bytes};
use crate::recovery::collector::{has_deposit, lemma_place_of, place_of, upsert, DepositView};
use crate::recovery::error::RecoveryError;
use crate::recovery::laws::law_threshold_reconstructs;
use crate::recovery::session::{
    accept_step, deposit_share, ended, lemma_accept_step, session_wf, shares_of, AcceptView,
    SessionState, SessionView,
};
use vstd::prelude::*;

verus! {

/// One submission: who hands in what, and when.
pub struct Submission {
    pub helper: Seq<u8>,
    pub envelope: Seq<char>,
    pub now: u64,
}

/// The session after the submissions `subs`, in order.
pub open spec fn run(s: SessionView, subs: Seq<Submission>) -> SessionView
    decreases subs.len(),
{
    if subs.len() == 0 {
        s
    } else {
        accept_step(
            run(s, subs.drop_last()),
            subs.last().helper,
            subs.last().envelope,
            subs.last().now,
        ).0
    }
}

/// What submission `i` of `subs` comes to.
pub open spec fn result_at(s: SessionView, subs: Seq<Submission>, i: int) -> Result<
    AcceptView,
    RecoveryError,
> {
    accept_step(run(s, subs.take(i)), subs[i].helper, subs[i].envelope, subs[i].now).1
}

/// The deposit that a submission makes.
pub open spec fn deposit_of(sub: Submission) -> DepositView {
    DepositView { helper: sub.helper, envelope: sub.envelope }
}

/// A run keeps a session together, and leaves a reconstructed one alone.
proof fn lemma_run_keeps(s: SessionView, subs: Seq<Submission>)
    requires
        session_wf(s),
    ensures
        session_wf(run(s, subs)),
        s.state == SessionState::Reconstructed ==> run(s, subs) == s,
    decreases subs.len(),
{
    if subs.len() > 0 {
        lemma_run_keeps(s, subs.drop_last());
        lemma_accept_step(
            run(s, subs.drop_last()),
            subs.last().helper,
            subs.last().envelope,
            subs.last().now,
        );
    }
}

/// A run is the run of its first part followed by the run of the rest.
proof fn lemma_run_split(s: SessionView, subs: Seq<Submission>, i: int)
    requires
        0 <= i <= subs.len(),
    ensures
        run(s, subs) == run(run(s, subs.take(i)), subs.skip(i)),
    decreases subs.len() - i,
{
    if i == subs.len() {
        assert(subs.take(i) =~= subs);
        assert(subs.skip(i).len() == 0);
    } else {
        let tail = subs.skip(i);
        lemma_run_split(s, subs.drop_last(), i);
        assert(subs.drop_last().take(i) =~= subs.take(i));
        assert(subs.drop_last().skip(i) =~= tail.drop_last());
        assert(tail.last() == subs.last());
    }
}

/// A session yields its secret at most once: after a submission that
/// reconstructed, every later submission is refused with `NoActiveSession`,
/// whoever sends it and whenever.
pub proof fn law_single_reconstruction(s: SessionView, subs: Seq<Submission>, i: int, j: int)
    requires
        session_wf(s),
        0 <= i < j < subs.len(),
        result_at(s, subs, i) matches Ok(AcceptView::Reconstructed(_)),
    ensures
        result_at(s, subs, j) == Err::<AcceptView, RecoveryError>(RecoveryError::NoActiveSession),
{
    let before = run(s, subs.take(i));
    lemma_run_keeps(s, subs.take(i));
    lemma_accept_step(before, subs[i].helper, subs[i].envelope, subs[i].now);
    let after = run(s, subs.take(i + 1));
    assert(subs.take(i + 1).drop_last() =~= subs.take(i));
    assert(subs.take(i + 1).last() == subs[i]);
    assert(after.state == SessionState::Reconstructed);
    lemma_run_split(s, subs.take(j), i + 1);
    assert(subs.take(j).take(i + 1) =~= subs.take(i + 1));
    lemma_run_keeps(after, subs.take(j).skip(i + 1));
    assert(run(s, subs.take(j)) == after);
}

/// The deposits of the first `count` submissions.
pub open spec fn deposits_of(subs: Seq<Submission>, count: int) -> Seq<DepositView> {
    Seq::new(count as nat, |i: int| deposit_of(subs[i]))
}

/// With distinct helpers, the next helper has no deposit yet, and its
/// deposit comes last.
proof fn lemma_new_helper(subs: Seq<Submission>, count: int)
    requires
        0 <= count < subs.len(),
        forall|a: int, b: int|
            0 <= a < subs.len() && 0 <= b < subs.len() && a != b ==> (#[trigger] subs[a]).helper
                != (#[trigger] subs[b]).helper,
    ensures
        !has_deposit(deposits_of(subs, count), subs[count].helper),
        upsert(deposits_of(subs, count), deposit_of(subs[count])) == deposits_of(subs, count + 1),
{
    let d = deposits_of(subs, count);
    lemma_place_of(d, subs[count].helper);
    if has_deposit(d, subs[count].helper) {
        let p = place_of(d, subs[count].helper);
        assert(d[p].helper == subs[p].helper);
    }
    assert(d.push(deposit_of(subs[count])) =~= deposits_of(subs, count + 1));
}

/// As many helpers as the threshold, one reconstruction: when `k` different
/// helpers hand in `k` different shares of one split to a session that
/// collects with threshold `k` and has not expired, in whatever order, each
/// of the first `k - 1` submissions is recorded with the count so far, and
/// the last one reconstructs the secret that was split.
pub proof fn law_threshold_submissions_recover(
    s: SessionView,
    subs: Seq<Submission>,
    secret: Seq<u8>,
    n: u8,
    set: Seq<ShareView>,
)
    requires
        session_wf(s),
        s.state == SessionState::Collecting,
        s.deposits.len() == 0,
        1 <= s.threshold <= n,
        is_share_set(set, secret, s.threshold, n),
        subs.len() == s.threshold,
        forall|i: int| 0 <= i < subs.len() ==> (#[trigger] subs[i]).now < s.expires_at,
        forall|a: int, b: int|
            0 <= a < subs.len() && 0 <= b < subs.len() && a != b ==> (#[trigger] subs[a]).helper
                != (#[trigger] subs[b]).helper,
        forall|i: int|
            0 <= i < subs.len() ==> deposit_share(
                s.identity.unwrap(),
                deposit_of(#[trigger] subs[i]),
            ) is Some && set.contains(
                deposit_share(s.identity.unwrap(), deposit_of(subs[i])).unwrap(),
            ),
        forall|a: int, b: int|
            0 <= a < subs.len() && 0 <= b < subs.len() && a != b ==> deposit_share(
                s.identity.unwrap(),
                deposit_of(#[trigger] subs[a]),
            ).unwrap().index != deposit_share(
                s.identity.unwrap(),
                deposit_of(#[trigger] subs[b]),
            ).unwrap().index,
    ensures
        forall|i: int|
            0 <= i < subs.len() - 1 ==> #[trigger] result_at(s, subs, i) == Ok::<
                AcceptView,
                RecoveryError,
            >(AcceptView::Recorded((i + 1) as nat)),
        result_at(s, subs, subs.len() - 1) == Ok::<AcceptView, RecoveryError>(
            AcceptView::Reconstructed(secret),
        ),
        run(s, subs).state == SessionState::Reconstructed,
{
    let k = s.threshold as int;
    let id = s.identity.unwrap();
    assert forall|i: int| 0 <= i < k implies run(s, subs.take(i)) == (SessionView {
        deposits: deposits_of(subs, i),
        ..s
    }) && (i < k - 1 ==> #[trigger] result_at(s, subs, i) == Ok::<AcceptView, RecoveryError>(
        AcceptView::Recorded((i + 1) as nat),
    )) by {
        lemma_prefix(s, subs, i);
    }
    let last = k - 1;
    let before = run(s, subs.take(last));
    lemma_new_helper(subs, last);
    let after = deposits_of(subs, k);
    let shares = shares_of(id, after);
    assert(positions(shares).no_duplicates()) by {
        assert forall|a: int, b: int|
            0 <= a < shares.len() && 0 <= b < shares.len() && a != b implies positions(shares)[a]
            != positions(shares)[b] by {
            assert(shares[a] == deposit_share(id, deposit_of(subs[a])).unwrap());
            assert(shares[b] == deposit_share(id, deposit_of(subs[b])).unwrap());
        }
    }
    positions(shares).unique_seq_to_set();
    assert(indices(shares).len() == k);
    assert forall|a: int| 0 <= a < shares.len() implies set.contains(#[trigger] shares[a]) by {
        assert(shares[a] == deposit_share(id, deposit_of(subs[a])).unwrap());
    }
    law_threshold_reconstructs(secret, s.threshold, n, set, shares);
    assert(subs.take(k) =~= subs);
    assert(subs.drop_last() =~= subs.take(last));
    assert(subs.last() == subs[last]);
}

/// Below the threshold, every submission of a new helper is recorded, and
/// the session holds exactly what was handed in.
proof fn lemma_prefix(s: SessionView, subs: Seq<Submission>, i: int)
    requires
        session_wf(s),
        s.state == SessionState::Collecting,
        s.deposits.len() == 0,
        subs.len() == s.threshold,
        0 <= i < subs.len(),
        forall|i: int| 0 <= i < subs.len() ==> (#[trigger] subs[i]).now < s.expires_at,
        forall|a: int, b: int|
            0 <= a < subs.len() && 0 <= b < subs.len() && a != b ==> (#[trigger] subs[a]).helper
                != (#[trigger] subs[b]).helper,
        forall|i: int|
            0 <= i < subs.len() ==> deposit_share(
                s.identity.unwrap(),
                deposit_of(#[trigger] subs[i]),
            ) is Some,
    ensures
        run(s, subs.take(i)) == (SessionView { deposits: deposits_of(subs, i), ..s }),
        i < subs.len() - 1 ==> result_at(s, subs, i) == Ok::<AcceptView, RecoveryError>(
            AcceptView::Recorded((i + 1) as nat),
        ),
    decreases i,
{
    if i == 0 {
        assert(subs.take(0).len() == 0);
        assert(deposits_of(subs, 0) =~= s.deposits);
    } else {
        lemma_prefix(s, subs, i - 1);
        assert(subs.take(i).drop_last() =~= subs.take(i - 1));
        assert(subs.take(i).last() == subs[i - 1]);
        lemma_new_helper(subs, i - 1);
    }
    lemma_new_helper(subs, i);
}

/// Shares of two splits do not mix in a session: when the submission of a
/// new helper brings the count to the threshold and the shares that are
/// then kept carry two different marks, the submission fails with
/// `InconsistentShares`, no secret is given, and the session is ended as
/// `Aborted` with nothing kept.
pub proof fn law_mixed_marks_abort(
    s: SessionView,
    helper: Seq<u8>,
    envelope: Seq<char>,
    now: u64,
    i: int,
    j: int,
)
    requires
        session_wf(s),
        s.state == SessionState::Collecting,
        now < s.expires_at,
        deposit_share(s.identity.unwrap(), DepositView { helper, envelope }) is Some,
        !has_deposit(s.deposits, helper),
        s.deposits.len() + 1 >= s.threshold,
        0 <= i <= s.deposits.len(),
        0 <= j <= s.deposits.len(),
        shares_of(s.identity.unwrap(), upsert(s.deposits, DepositView { helper, envelope }))[i].set_id
            != shares_of(
            s.identity.unwrap(),
            upsert(s.deposits, DepositView { helper, envelope }),
        )[j].set_id,
    ensures
        accept_step(s, helper, envelope, now).1 == Err::<AcceptView, RecoveryError>(
            RecoveryError::InconsistentShares,
        ),
        accept_step(s, helper, envelope, now).0 == ended(s, SessionState::Aborted),
{
    let after = upsert(s.deposits, DepositView { helper, envelope });
    let shares = shares_of(s.identity.unwrap(), after);
    assert(!compatible(shares[i], shares[j]));
    assert(!consistent(shares, s.threshold));
}

/// The envelope of a dispatch, where it has one.
pub open spec fn envelope_of(dispatch: Dispatch) -> Seq<char> {
    match dispatch.sealed {
        Ok(envelope) => envelope@,
        Err(_) => Seq::<char>::empty(),
    }
}

/// What was sent out brings the secret back: when as many different
/// helpers as the threshold hand back the envelopes that a started recovery
/// made for them, before the session expires and in whatever order, each
/// submission but the last is recorded with the count so far, and the last
/// one reconstructs the secret that the recovery was started with.
pub proof fn law_dispatches_recover(
    s: SessionView,
    helpers: Seq<Seq<u8>>,
    secret: Seq<u8>,
    dispatches: Seq<Dispatch>,
    picks: Seq<int>,
    times: Seq<u64>,
)
    requires
        session_wf(s),
        s.state == SessionState::Collecting,
        s.deposits.len() == 0,
        helpers.no_duplicates(),
        s.threshold <= helpers.len() <= 255,
        dispatches.len() == helpers.len(),
        carries_shares(s.identity.unwrap(), helpers, secret, s.threshold, dispatches),
        picks.no_duplicates(),
        picks.len() == s.threshold,
        times.len() == picks.len(),
        forall|j: int|
            0 <= j < picks.len() ==> 0 <= #[trigger] picks[j] < helpers.len()
                && dispatches[picks[j]].sealed is Ok,
        forall|j: int| 0 <= j < times.len() ==> #[trigger] times[j] < s.expires_at,
    ensures
        forall|j: int|
            0 <= j < picks.len() - 1 ==> #[trigger] result_at(
                s,
                handed_back(helpers, dispatches, picks, times),
                j,
            ) == Ok::<AcceptView, RecoveryError>(AcceptView::Recorded((j + 1) as nat)),
        result_at(s, handed_back(helpers, dispatches, picks, times), picks.len() - 1) == Ok::<
            AcceptView,
            RecoveryError,
        >(AcceptView::Reconstructed(secret)),
        run(s, handed_back(helpers, dispatches, picks, times)).state
            == SessionState::Reconstructed,
{
    let id = s.identity.unwrap();
    let k = s.threshold;
    let n = helpers.len() as u8;
    let set = choose|set: Seq<ShareView>|
        {
            &&& #[trigger] is_share_set(set, secret, k, helpers.len() as u8)
            &&& forall|i: int|
                0 <= i < dispatches.len() ==> ((#[trigger] dispatches[i]).sealed matches Ok(env)
                    ==> decrypt_spec(env@, id, helpers[i]) == Ok::<Seq<u8>, RecoveryError>(
                    share_bytes(set[i]),
                ))
        };
    let (coefficients, set_id) = choose|coefficients: Seq<Seq<u8>>, set_id: u64|
        coefficients_fit(coefficients, protected(secret).len(), k) && set == #[trigger] split_spec(
            secret,
            k,
            n,
            coefficients,
            set_id,
        );
    let subs = handed_back(helpers, dispatches, picks, times);
    assert forall|j: int| 0 <= j < subs.len() implies deposit_share(
        id,
        deposit_of(#[trigger] subs[j]),
    ) == Some(set[picks[j]]) && set[picks[j]].index == picks[j] + 1 by {
        let p = picks[j];
        assert(0 <= p < helpers.len() && dispatches[p].sealed is Ok);
        assert(dispatches[p].sealed matches Ok(env) ==> decrypt_spec(env@, id, helpers[p]) == Ok::<
            Seq<u8>,
            RecoveryError,
        >(share_bytes(set[p])));
        law_share_round_trip(set[p]);
    }
    assert forall|a: int, b: int|
        0 <= a < subs.len() && 0 <= b < subs.len() && a != b implies (#[trigger] subs[a]).helper
        != (#[trigger] subs[b]).helper by {
        assert(picks[a] != picks[b]);
    }
    assert forall|a: int, b: int|
        0 <= a < subs.len() && 0 <= b < subs.len() && a != b implies deposit_share(
        id,
        deposit_of(#[trigger] subs[a]),
    ).unwrap().index != deposit_share(id, deposit_of(#[trigger] subs[b])).unwrap().index by {
        assert(picks[a] != picks[b]);
        assert(deposit_share(id, deposit_of(subs[a])) == Some(set[picks[a]]));
        assert(deposit_share(id, deposit_of(subs[b])) == Some(set[picks[b]]));
    }
    assert forall|j: int| 0 <= j < subs.len() implies deposit_share(
        id,
        deposit_of(#[trigger] subs[j]),
    ) is Some && set.contains(deposit_share(id, deposit_of(subs[j])).unwrap()) by {
        assert(deposit_share(id, deposit_of(subs[j])) == Some(set[picks[j]]));
    }
    assert forall|j: int| 0 <= j < subs.len() implies (#[trigger] subs[j]).now < s.expires_at by {
        assert(times[j] < s.expires_at);
    }
    law_threshold_submissions_recover(s, subs, secret, n, set);
}

/// The submissions in which the helpers at `picks` hand back the envelopes
/// that were made for them, at the times given.
pub open spec fn handed_back(
    helpers: Seq<Seq<u8>>,
    dispatches: Seq<Dispatch>,
    picks: Seq<int>,
    times: Seq<u64>,
) -> Seq<Submission> {
    Seq::new(
        picks.len(),
        |j: int|
            Submission {
                helper: helpers[picks[j]],
                envelope: envelope_of(dispatches[picks[j]]),
                now: times[j],
            },
    )
}

} // verus!
