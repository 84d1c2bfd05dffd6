//! The accumulator of the shares that helpers hand in for one recovery
//! session. What it holds is what was handed in: envelopes that only the
//! key of the session opens.

use crate::recovery::channel::{Envelope, PubKey};
use crate::recovery::error::RecoveryError;
use vstd::prelude::*;

verus! {

/// A share as it is kept: the envelope that a helper handed in.
#[derive(Debug)]
pub struct Deposit {
    pub helper: PubKey,
    pub envelope: Envelope,
}

/// What a deposit holds.
pub struct DepositView {
    pub helper: Seq<u8>,
    pub envelope: Seq<char>,
}

impl View for Deposit {
    type V = DepositView;

    open spec fn view(&self) -> DepositView {
        DepositView { helper: self.helper@, envelope: self.envelope@ }
    }
}

impl Deposit {
    /// A copy of the deposit.
    pub fn duplicate(&self) -> (deposit: Deposit)
        ensures
            deposit@ == self@,
    {
        Deposit { helper: self.helper.duplicate(), envelope: self.envelope.duplicate() }
    }
}

/// What each of `deposits` holds.
pub open spec fn deposit_views(deposits: Seq<Deposit>) -> Seq<DepositView> {
    Seq::new(deposits.len(), |i: int| deposits[i]@)
}

/// What recording a share comes to.
#[derive(Debug)]
pub enum CollectionOutcome {
    /// The share is kept; the threshold was not reached by it.
    Recorded,
    /// The share is kept, and with it a new helper brought the count to the
    /// threshold or beyond: here is everything that is kept.
    ThresholdReached(Vec<Deposit>),
}

/// The place of the deposit of `helper`, or the length if there is none.
pub open spec fn place_of(deposits: Seq<DepositView>, helper: Seq<u8>) -> int
    decreases deposits.len(),
{
    if deposits.len() == 0 {
        0
    } else if deposits[0].helper == helper {
        0
    } else {
        1 + place_of(deposits.drop_first(), helper)
    }
}

/// Whether `helper` has a deposit.
pub open spec fn has_deposit(deposits: Seq<DepositView>, helper: Seq<u8>) -> bool {
    place_of(deposits, helper) < deposits.len()
}

/// The deposits after `deposit` is handed in: it takes the place of an
/// earlier deposit of the same helper, or comes last.
pub open spec fn upsert(deposits: Seq<DepositView>, deposit: DepositView) -> Seq<DepositView> {
    if has_deposit(deposits, deposit.helper) {
        deposits.update(place_of(deposits, deposit.helper), deposit)
    } else {
        deposits.push(deposit)
    }
}

/// No helper has two deposits.
pub open spec fn distinct_helpers(deposits: Seq<DepositView>) -> bool {
    forall|i: int, j: int|
        0 <= i < deposits.len() && 0 <= j < deposits.len() && i != j ==> (
        #[trigger] deposits[i]).helper != (#[trigger] deposits[j]).helper
}

/// Where `place_of` points.
pub proof fn lemma_place_of(deposits: Seq<DepositView>, helper: Seq<u8>)
    ensures
        0 <= place_of(deposits, helper) <= deposits.len(),
        has_deposit(deposits, helper) ==> deposits[place_of(deposits, helper)].helper == helper,
        forall|i: int|
            0 <= i < place_of(deposits, helper) ==> (#[trigger] deposits[i]).helper != helper,
    decreases deposits.len(),
{
    if deposits.len() > 0 && deposits[0].helper != helper {
        let rest = deposits.drop_first();
        lemma_place_of(rest, helper);
        assert forall|i: int| 0 <= i < place_of(deposits, helper) implies (
        #[trigger] deposits[i]).helper != helper by {
            if i > 0 {
                assert(rest[i - 1] == deposits[i]);
            }
        }
    }
}

/// Handing in keeps helpers distinct, and adds to the count exactly when
/// the helper is new.
pub proof fn lemma_upsert(deposits: Seq<DepositView>, deposit: DepositView)
    requires
        distinct_helpers(deposits),
    ensures
        distinct_helpers(upsert(deposits, deposit)),
        has_deposit(upsert(deposits, deposit), deposit.helper),
        upsert(deposits, deposit).len() == if has_deposit(deposits, deposit.helper) {
            deposits.len()
        } else {
            deposits.len() + 1
        },
{
    lemma_place_of(deposits, deposit.helper);
    let after = upsert(deposits, deposit);
    let p = place_of(deposits, deposit.helper);
    assert(after[p] == deposit);
    assert forall|i: int, j: int|
        0 <= i < after.len() && 0 <= j < after.len() && i != j implies (#[trigger] after[i]).helper
        != (#[trigger] after[j]).helper by {
        if i != p && j != p {
            assert(after[i] == deposits[i]);
            assert(after[j] == deposits[j]);
        } else if i == p {
            assert(after[j] == deposits[j]);
        } else {
            assert(after[i] == deposits[i]);
        }
    }
    lemma_place_of(after, deposit.helper);
    if place_of(after, deposit.helper) >= after.len() {
        assert(after[p].helper == deposit.helper);
    }
}

/// Idempotent resubmission: a helper who hands in twice counts once. After
/// the second deposit there are as many deposits as after the first, and
/// the second has taken the place of the first.
pub proof fn law_resubmission_counts_once(
    deposits: Seq<DepositView>,
    first: DepositView,
    second: DepositView,
)
    requires
        distinct_helpers(deposits),
        first.helper == second.helper,
    ensures
        upsert(upsert(deposits, first), second).len() == upsert(deposits, first).len(),
        upsert(upsert(deposits, first), second) == upsert(deposits, second),
{
    lemma_upsert(deposits, first);
    let once = upsert(deposits, first);
    lemma_upsert(once, second);
    lemma_place_of(deposits, first.helper);
    lemma_place_of(once, first.helper);
    let p = place_of(deposits, first.helper);
    let q = place_of(once, first.helper);
    assert(once[p].helper == first.helper);
    if q < p {
        assert(once[q] == deposits[q]);
    }
    assert(q == p);
    assert(upsert(once, second) =~= upsert(deposits, second));
}

/// The accumulator of one session.
pub struct ShareCollector {
    session_id: u128,
    threshold: u8,
    deposits: Vec<Deposit>,
}

/// What a collector holds.
pub struct CollectorView {
    pub session_id: u128,
    pub threshold: u8,
    pub deposits: Seq<DepositView>,
}

impl View for ShareCollector {
    type V = CollectorView;

    closed spec fn view(&self) -> CollectorView {
        CollectorView {
            session_id: self.session_id,
            threshold: self.threshold,
            deposits: deposit_views(self.deposits@),
        }
    }
}

/// What recording `deposit` for `session_id` makes of a collector: the
/// deposits afterwards, and whether the call reached the threshold. A call
/// for another session changes nothing.
pub open spec fn record_spec(
    before: CollectorView,
    session_id: u128,
    deposit: DepositView,
) -> CollectorView {
    if session_id != before.session_id {
        before
    } else {
        CollectorView { deposits: upsert(before.deposits, deposit), ..before }
    }
}

/// Whether recording `deposit` reaches the threshold: the helper is new,
/// and with it as many helpers as the threshold asks for have handed in.
pub open spec fn reaches_threshold(before: CollectorView, deposit: DepositView) -> bool {
    !has_deposit(before.deposits, deposit.helper) && before.deposits.len() + 1 >= before.threshold
}

impl ShareCollector {
    /// No helper has two deposits.
    pub open spec fn wf(&self) -> bool {
        distinct_helpers(self@.deposits)
    }

    /// An empty collector for the session `session_id`.
    pub fn new(session_id: u128, threshold: u8) -> (collector: ShareCollector)
        ensures
            collector.wf(),
            collector@ == (CollectorView {
                session_id,
                threshold,
                deposits: Seq::<DepositView>::empty(),
            }),
    {
        let collector = ShareCollector { session_id, threshold, deposits: Vec::new() };
        assert(collector@.deposits =~= Seq::<DepositView>::empty());
        collector
    }

    /// The number of helpers that have handed in a share.
    pub fn progress(&self) -> (count: usize)
        ensures
            count == self@.deposits.len(),
    {
        self.deposits.len()
    }

    /// The threshold of the session.
    pub fn threshold(&self) -> (k: u8)
        ensures
            k == self@.threshold,
    {
        self.threshold
    }

    /// The place of the deposit of `helper`, or the count if there is none.
    fn find(&self, helper: &PubKey) -> (place: usize)
        ensures
            place == place_of(self@.deposits, helper@),
    {
        let ghost views = deposit_views(self.deposits@);
        let mut i: usize = 0;
        assert(views.skip(0) =~= views);
        while i < self.deposits.len()
            invariant
                i <= self.deposits.len(),
                views == deposit_views(self.deposits@),
                place_of(views, helper@) == i + place_of(views.skip(i as int), helper@),
            decreases self.deposits.len() - i,
        {
            let ghost tail = views.skip(i as int);
            assert(tail[0] == self.deposits@[i as int]@);
            assert(tail.drop_first() =~= views.skip(i + 1));
            if self.deposits[i].helper.same(helper) {
                return i;
            }
            i = i + 1;
        }
        assert(views.skip(i as int).len() == 0);
        i
    }

    /// Keeps the share that `helper` hands in for the session `session_id`,
    /// in place of an earlier one of the same helper.
    ///
    /// Fails with `NoActiveSession`, and keeps nothing, when the collector
    /// belongs to another session. Reports `ThresholdReached`, with all the
    /// deposits, exactly when the helper is new and the count of helpers
    /// thereby comes to the threshold or beyond.
    pub fn record(&mut self, session_id: u128, helper: PubKey, encrypted_share: Envelope) -> (r:
        Result<CollectionOutcome, RecoveryError>)
        requires
            old(self).wf(),
        ensures
            final(self).wf(),
            final(self)@ == record_spec(
                old(self)@,
                session_id,
                (DepositView { helper: helper@, envelope: encrypted_share@ }),
            ),
            r is Err <==> session_id != old(self)@.session_id,
            r matches Err(e) ==> e == RecoveryError::NoActiveSession,
            r matches Ok(outcome) ==> (outcome is ThresholdReached <==> reaches_threshold(
                old(self)@,
                (DepositView { helper: helper@, envelope: encrypted_share@ }),
            )),
            r matches Ok(CollectionOutcome::ThresholdReached(all)) ==> deposit_views(all@)
                == final(self)@.deposits,
    {
        if session_id != self.session_id {
            return Err(RecoveryError::NoActiveSession);
        }
        let ghost before = self@.deposits;
        let ghost deposit = DepositView { helper: helper@, envelope: encrypted_share@ };
        proof {
            lemma_upsert(before, deposit);
            lemma_place_of(before, helper@);
        }
        let place = self.find(&helper);
        let fresh = place == self.deposits.len();
        let entry = Deposit { helper, envelope: encrypted_share };
        if fresh {
            self.deposits.push(entry);
            assert(self@.deposits =~= before.push(deposit));
        } else {
            self.deposits.set(place, entry);
            assert(self@.deposits =~= before.update(place as int, deposit));
        }
        if fresh && self.deposits.len() >= self.threshold as usize {
            let mut all: Vec<Deposit> = Vec::new();
            let mut i: usize = 0;
            while i < self.deposits.len()
                invariant
                    i <= self.deposits.len(),
                    all@.len() == i,
                    forall|j: int| 0 <= j < i ==> all@[j]@ == self.deposits@[j]@,
                decreases self.deposits.len() - i,
            {
                all.push(self.deposits[i].duplicate());
                i = i + 1;
            }
            assert(deposit_views(all@) =~= self@.deposits);
            Ok(CollectionOutcome::ThresholdReached(all))
        } else {
            Ok(CollectionOutcome::Recorded)
        }
    }

    /// Discards every share held for the session `session_id`; does nothing
    /// for another session.
    pub fn clear(&mut self, session_id: u128)
        requires
            old(self).wf(),
        ensures
            final(self).wf(),
            final(self)@ == if session_id == old(self)@.session_id {
                CollectorView { deposits: Seq::<DepositView>::empty(), ..old(self)@ }
            } else {
                old(self)@
            },
    {
        if session_id == self.session_id {
            self.deposits = Vec::new();
            assert(self@.deposits =~= Seq::<DepositView>::empty());
        }
    }
}

} // verus!
