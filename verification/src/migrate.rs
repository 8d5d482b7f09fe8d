use vstd::prelude::*;

verus! {

/// The migration versions that still have to run: those of `available` that
/// `applied` does not contain, in the order `available` lists them.
pub open spec fn pending(available: Seq<u64>, applied: Seq<u64>) -> Seq<u64>
    decreases available.len(),
{
    if available.len() == 0 {
        Seq::<u64>::empty()
    } else {
        let rest = pending(available.drop_last(), applied);
        if applied.contains(available.last()) {
            rest
        } else {
            rest.push(available.last())
        }
    }
}

/// Re-planning when every available migration is already recorded yields
/// nothing: re-running the migrator against a current schema is a no-op.
pub proof fn lemma_pending_empty_when_current(available: Seq<u64>, applied: Seq<u64>)
    requires
        forall|i: int| 0 <= i < available.len() ==> applied.contains(#[trigger] available[i]),
    ensures
        pending(available, applied) == Seq::<u64>::empty(),
    decreases available.len(),
{
    if available.len() > 0 {
        lemma_pending_empty_when_current(available.drop_last(), applied);
    }
}

/// Every planned version is an available one that the ledger lacks.
pub proof fn lemma_pending_sound(available: Seq<u64>, applied: Seq<u64>)
    ensures
        forall|i: int|
            0 <= i < pending(available, applied).len() ==> available.contains(
                #[trigger] pending(available, applied)[i],
            ) && !applied.contains(pending(available, applied)[i]),
    decreases available.len(),
{
    if available.len() > 0 {
        let front = available.drop_last();
        lemma_pending_sound(front, applied);
        let p = pending(available, applied);
        let q = pending(front, applied);
        assert forall|i: int|
            0 <= i < p.len() implies available.contains(#[trigger] p[i]) && !applied.contains(
            p[i]) by {
            if i < q.len() {
                let w = choose|w: int| 0 <= w < front.len() && front[w] == q[i];
                assert(available[w] == p[i]);
            } else {
                assert(p[i] == available.last());
                assert(available[available.len() - 1] == p[i]);
            }
        }
    }
}

/// Every available version the ledger lacks is planned: nothing unapplied is
/// skipped.
pub proof fn lemma_pending_complete(available: Seq<u64>, applied: Seq<u64>)
    ensures
        forall|i: int|
            0 <= i < available.len() && !applied.contains(#[trigger] available[i]) ==> pending(
                available,
                applied,
            ).contains(available[i]),
    decreases available.len(),
{
    if available.len() > 0 {
        let front = available.drop_last();
        lemma_pending_complete(front, applied);
        let p = pending(available, applied);
        let q = pending(front, applied);
        assert forall|i: int|
            0 <= i < available.len() && !applied.contains(#[trigger] available[i]) implies p
            .contains(available[i]) by {
            if i < available.len() - 1 {
                assert(front[i] == available[i]);
                assert(q.contains(front[i]));
                let w = choose|w: int| 0 <= w < q.len() && q[w] == front[i];
                assert(p[w] == available[i]);
            } else {
                assert(p[p.len() - 1] == available[i]);
            }
        }
    }
}

/// When the available versions are strictly ascending — the order migrations
/// are numbered and applied in — so is the plan.
pub proof fn lemma_pending_sorted(available: Seq<u64>, applied: Seq<u64>)
    requires
        forall|i: int, j: int| 0 <= i < j < available.len() ==> available[i] < available[j],
    ensures
        forall|i: int, j: int|
            0 <= i < j < pending(available, applied).len() ==> pending(available, applied)[i]
                < pending(available, applied)[j],
    decreases available.len(),
{
    if available.len() > 0 {
        let front = available.drop_last();
        lemma_pending_sorted(front, applied);
        lemma_pending_sound(front, applied);
        let p = pending(available, applied);
        let q = pending(front, applied);
        assert forall|i: int, j: int| 0 <= i < j < p.len() implies p[i] < p[j] by {
            if j < q.len() {
                assert(q[i] < q[j]);
            } else if !applied.contains(available.last()) {
                let w = choose|w: int| 0 <= w < front.len() && front[w] == q[i];
                assert(available[w] == q[i]);
                assert(available[w] < available[available.len() - 1]);
            }
        }
    }
}

/// The persisted ledger of migration versions already applied, kept in the
/// ascending order they ran in.
pub struct MigrationLedger {
    applied: Vec<u64>,
}

impl View for MigrationLedger {
    type V = Seq<u64>;

    closed spec fn view(&self) -> Seq<u64> {
        self.applied@
    }
}

impl MigrationLedger {
    /// The ledger records versions in strictly ascending order.
    pub open spec fn wf(&self) -> bool {
        forall|i: int, j: int| 0 <= i < j < self@.len() ==> self@[i] < self@[j]
    }

    /// An empty ledger: nothing has been applied yet.
    pub fn new() -> (r: MigrationLedger)
        ensures
            r.wf(),
            r@ == Seq::<u64>::empty(),
    {
        MigrationLedger { applied: Vec::new() }
    }

    /// Whether `version` has already been applied.
    pub fn is_applied(&self, version: u64) -> (r: bool)
        ensures
            r == self@.contains(version),
    {
        let mut i: usize = 0;
        while i < self.applied.len()
            invariant
                0 <= i <= self.applied.len(),
                forall|j: int| 0 <= j < i ==> self@[j] != version,
            decreases self.applied.len() - i,
        {
            if self.applied[i] == version {
                return true;
            }
            i = i + 1;
        }
        false
    }

    /// Records one applied migration. Migrations run in ascending order, so
    /// the recorded version must exceed everything already in the ledger.
    pub fn record(&mut self, version: u64)
        requires
            old(self).wf(),
            old(self)@.len() == 0 || old(self)@.last() < version,
        ensures
            final(self).wf(),
            final(self)@ == old(self)@.push(version),
    {
        self.applied.push(version);
    }

    /// Plans a run: of the `available` versions, in their order, exactly
    /// those the ledger does not contain.
    pub fn plan(&self, available: &Vec<u64>) -> (r: Vec<u64>)
        ensures
            r@ == pending(available@, self@),
    {
        let mut r: Vec<u64> = Vec::new();
        let mut i: usize = 0;
        while i < available.len()
            invariant
                0 <= i <= available.len(),
                r@ == pending(available@.take(i as int), self@),
            decreases available.len() - i,
        {
            proof {
                assert(available@.take(i as int + 1).drop_last() =~= available@.take(i as int));
                assert(available@.take(i as int + 1).last() == available@[i as int]);
            }
            if !self.is_applied(available[i]) {
                r.push(available[i]);
            }
            i = i + 1;
        }
        proof {
            assert(available@.take(available@.len() as int) =~= available@);
        }
        r
    }
}

} // verus!
