use vstd::prelude::*;
use crate::vesting::{spec_vested, vested_amount};

verus! {

/// One fundraising / token-distribution campaign. Created once, mutated only
/// by participation (the raised total) and by finalization (status and
/// vesting start); never deleted.
pub struct Project {
    pub id: u64,
    pub creator: u64,
    pub name: String,
    pub symbol: String,
    pub token_address: u64,
    pub total_supply: i128,
    pub airdrop_allocation: i128,
    pub liquidity_allocation: i128,
    pub team_allocation: i128,
    pub total_raised: i128,
    pub target_amount: i128,
    pub price_per_token: i128,
    pub min_contribution: i128,
    pub max_contribution: i128,
    pub start_time: u64,
    pub end_time: u64,
    pub vesting_start: u64,
    pub vesting_duration: u64,
    pub vesting_cliff: u64,
    pub is_active: bool,
    pub is_finalized: bool,
}

impl Project {
    /// Invariant established at creation and preserved by every operation:
    /// the three allocation buckets fit in the supply, the campaign window
    /// is non-empty, the price is positive, the raised total never goes
    /// negative, and a finalized project is no longer active.
    pub open spec fn wf(self) -> bool {
        &&& self.total_supply > 0
        &&& self.airdrop_allocation + self.liquidity_allocation + self.team_allocation
            <= self.total_supply
        &&& self.start_time < self.end_time
        &&& self.price_per_token > 0
        &&& self.total_raised >= 0
        &&& self.is_finalized ==> !self.is_active
    }

    /// An exact copy of the record (the two text fields are cloned).
    pub fn duplicate(&self) -> (r: Project)
        ensures
            r == *self,
    {
        Project {
            id: self.id,
            creator: self.creator,
            name: self.name.clone(),
            symbol: self.symbol.clone(),
            token_address: self.token_address,
            total_supply: self.total_supply,
            airdrop_allocation: self.airdrop_allocation,
            liquidity_allocation: self.liquidity_allocation,
            team_allocation: self.team_allocation,
            total_raised: self.total_raised,
            target_amount: self.target_amount,
            price_per_token: self.price_per_token,
            min_contribution: self.min_contribution,
            max_contribution: self.max_contribution,
            start_time: self.start_time,
            end_time: self.end_time,
            vesting_start: self.vesting_start,
            vesting_duration: self.vesting_duration,
            vesting_cliff: self.vesting_cliff,
            is_active: self.is_active,
            is_finalized: self.is_finalized,
        }
    }
}

/// A participant's cumulative record for one project: contribution,
/// entitlement, claims and points spent. Created lazily on the first
/// contribution.
#[derive(Clone, Copy, Debug, PartialEq, Eq, Structural)]
pub struct Participation {
    pub participant: u64,
    pub amount_contributed: i128,
    pub tokens_allocated: i128,
    pub tokens_claimed: i128,
    pub star_points_used: i128,
    pub last_claim_time: u64,
}

impl Participation {
    /// What was claimed never exceeds what was allocated, and none of the
    /// accumulators is negative.
    pub open spec fn wf(self) -> bool {
        &&& self.amount_contributed >= 0
        &&& self.star_points_used >= 0
        &&& 0 <= self.tokens_claimed <= self.tokens_allocated
    }

    /// The empty record a first contribution starts from.
    pub fn empty(participant: u64) -> (r: Participation)
        ensures
            r == (Participation {
                participant,
                amount_contributed: 0,
                tokens_allocated: 0,
                tokens_claimed: 0,
                star_points_used: 0,
                last_claim_time: 0,
            }),
            r.wf(),
    {
        Participation {
            participant,
            amount_contributed: 0,
            tokens_allocated: 0,
            tokens_claimed: 0,
            star_points_used: 0,
            last_claim_time: 0,
        }
    }
}

/// A vesting position on its own: how much of `total_amount` has been
/// claimed of a schedule that starts at `start_time`, runs for
/// `total_duration`, and releases nothing before `cliff_duration` has
/// passed.
#[derive(Clone, Copy, Debug, PartialEq, Eq, Structural)]
pub struct VestingSchedule {
    pub total_amount: i128,
    pub claimed_amount: i128,
    pub start_time: u64,
    pub cliff_duration: u64,
    pub total_duration: u64,
}

impl VestingSchedule {
    pub open spec fn wf(self) -> bool {
        0 <= self.claimed_amount <= self.total_amount
    }

    /// How much of the schedule has unlocked at `now`; the cliff gates when
    /// claiming may happen, not the shape of the curve.
    pub fn vested_at(&self, now: u64) -> (r: i128)
        requires
            self.total_amount >= 0,
            now > self.start_time && now - self.start_time < self.total_duration
                ==> self.total_amount * (now - self.start_time) <= i128::MAX,
        ensures
            r == spec_vested(
                self.total_amount as int,
                self.start_time as int,
                self.total_duration as int,
                now as int,
            ),
            0 <= r <= self.total_amount,
    {
        vested_amount(self.total_amount, self.start_time, self.total_duration, now)
    }
}

/// The first record for `(pid, who)` at or after position `i`.
spec fn find_part_from(s: Seq<(u64, Participation)>, pid: u64, who: u64, i: int) -> Option<
    Participation,
>
    decreases s.len() - i,
{
    if i < 0 || i >= s.len() {
        None
    } else if s[i].0 == pid && s[i].1.participant == who {
        Some(s[i].1)
    } else {
        find_part_from(s, pid, who, i + 1)
    }
}

spec fn wf_part_entries(s: Seq<(u64, Participation)>) -> bool {
    forall|k: int| 0 <= k < s.len() ==> (#[trigger] s[k]).1.wf()
}

proof fn lemma_part_find_wf(s: Seq<(u64, Participation)>, pid: u64, who: u64, i: int)
    requires
        wf_part_entries(s),
    ensures
        (match find_part_from(s, pid, who, i) {
            Some(p) => p.wf() && p.participant == who,
            None => true,
        }),
    decreases s.len() - i,
{
    if i < 0 || i >= s.len() {
    } else if s[i].0 == pid && s[i].1.participant == who {
    } else {
        lemma_part_find_wf(s, pid, who, i + 1);
    }
}

proof fn lemma_part_update_match(
    s: Seq<(u64, Participation)>,
    pid: u64,
    j: int,
    p: Participation,
    i: int,
)
    requires
        0 <= i <= j < s.len(),
        s[j].0 == pid && s[j].1.participant == p.participant,
        forall|k: int| i <= k < j ==> !((#[trigger] s[k]).0 == pid && s[k].1.participant
            == p.participant),
    ensures
        find_part_from(s.update(j, (pid, p)), pid, p.participant, i) == Some(p),
    decreases j - i,
{
    let s2 = s.update(j, (pid, p));
    if i == j {
        assert(s2[j] == (pid, p));
    } else {
        assert(s2[i] == s[i]);
        lemma_part_update_match(s, pid, j, p, i + 1);
    }
}

proof fn lemma_part_update_other(
    s: Seq<(u64, Participation)>,
    pid: u64,
    j: int,
    p: Participation,
    pid2: u64,
    who2: u64,
    i: int,
)
    requires
        0 <= j < s.len(),
        s[j].0 == pid && s[j].1.participant == p.participant,
        !(pid2 == pid && who2 == p.participant),
    ensures
        find_part_from(s.update(j, (pid, p)), pid2, who2, i) == find_part_from(s, pid2, who2, i),
    decreases s.len() - i,
{
    let s2 = s.update(j, (pid, p));
    if i < 0 || i >= s.len() {
    } else if i == j {
        assert(s2[i] == (pid, p));
        lemma_part_update_other(s, pid, j, p, pid2, who2, i + 1);
    } else {
        assert(s2[i] == s[i]);
        if !(s[i].0 == pid2 && s[i].1.participant == who2) {
            lemma_part_update_other(s, pid, j, p, pid2, who2, i + 1);
        }
    }
}

proof fn lemma_part_push_new(
    s: Seq<(u64, Participation)>,
    pid: u64,
    p: Participation,
    i: int,
)
    requires
        0 <= i <= s.len(),
        forall|k: int| i <= k < s.len() ==> !((#[trigger] s[k]).0 == pid && s[k].1.participant
            == p.participant),
    ensures
        find_part_from(s.push((pid, p)), pid, p.participant, i) == Some(p),
    decreases s.len() - i,
{
    let s2 = s.push((pid, p));
    if i == s.len() {
        assert(s2[i] == (pid, p));
    } else {
        assert(s2[i] == s[i]);
        lemma_part_push_new(s, pid, p, i + 1);
    }
}

proof fn lemma_part_push_other(
    s: Seq<(u64, Participation)>,
    pid: u64,
    p: Participation,
    pid2: u64,
    who2: u64,
    i: int,
)
    requires
        0 <= i <= s.len(),
        !(pid2 == pid && who2 == p.participant),
    ensures
        find_part_from(s.push((pid, p)), pid2, who2, i) == find_part_from(s, pid2, who2, i),
    decreases s.len() - i,
{
    let s2 = s.push((pid, p));
    if i == s.len() {
        assert(s2[i] == (pid, p));
    } else {
        assert(s2[i] == s[i]);
        if !(s[i].0 == pid2 && s[i].1.participant == who2) {
            lemma_part_push_other(s, pid, p, pid2, who2, i + 1);
        }
    }
}

/// The participation ledger: one record per `(project, participant)` pair,
/// looked up by that pair and rewritten in place on every further
/// contribution or claim.
pub struct Participations {
    entries: Vec<(u64, Participation)>,
}

impl Participations {
    /// The record of `who` in project `pid`, if any.
    pub closed spec fn spec_get(self, pid: u64, who: u64) -> Option<Participation> {
        find_part_from(self.entries@, pid, who, 0)
    }

    /// Every stored record is well-formed.
    pub closed spec fn wf(self) -> bool {
        wf_part_entries(self.entries@)
    }

    /// A stored record is well-formed and carries its own participant key.
    pub proof fn lemma_get_wf(self, pid: u64, who: u64)
        requires
            self.wf(),
        ensures
            (match self.spec_get(pid, who) {
                Some(p) => p.wf() && p.participant == who,
                None => true,
            }),
    {
        lemma_part_find_wf(self.entries@, pid, who, 0);
    }

    /// An empty ledger.
    pub fn new() -> (r: Participations)
        ensures
            r.wf(),
            forall|pid: u64, who: u64| r.spec_get(pid, who) is None,
    {
        Participations { entries: Vec::new() }
    }

    /// Reads the record of `who` in project `pid`.
    pub fn get(&self, pid: u64, who: u64) -> (r: Option<Participation>)
        ensures
            r == self.spec_get(pid, who),
    {
        let n = self.entries.len();
        let mut i: usize = 0;
        while i < n
            invariant
                n == self.entries@.len(),
                i <= n,
                find_part_from(self.entries@, pid, who, 0) == find_part_from(
                    self.entries@,
                    pid,
                    who,
                    i as int,
                ),
            decreases n - i,
        {
            if self.entries[i].0 == pid && self.entries[i].1.participant == who {
                return Some(self.entries[i].1);
            }
            i += 1;
        }
        None
    }

    /// Stores `p` as the record of `(pid, p.participant)`, leaving every
    /// other record untouched.
    pub fn put(&mut self, pid: u64, p: Participation)
        requires
            old(self).wf(),
            p.wf(),
        ensures
            final(self).wf(),
            final(self).spec_get(pid, p.participant) == Some(p),
            forall|pid2: u64, who2: u64|
                !(pid2 == pid && who2 == p.participant) ==> final(self).spec_get(pid2, who2)
                    == old(self).spec_get(pid2, who2),
    {
        let n = self.entries.len();
        let mut i: usize = 0;
        while i < n
            invariant
                old(self).wf(),
                p.wf(),
                self.entries@ == old(self).entries@,
                n == self.entries@.len(),
                i <= n,
                forall|k: int| 0 <= k < i ==> !((#[trigger] self.entries@[k]).0 == pid
                    && self.entries@[k].1.participant == p.participant),
            decreases n - i,
        {
            if self.entries[i].0 == pid && self.entries[i].1.participant == p.participant {
                proof {
                    let s = self.entries@;
                    let s2 = s.update(i as int, (pid, p));
                    lemma_part_update_match(s, pid, i as int, p, 0);
                    assert forall|pid2: u64, who2: u64|
                        !(pid2 == pid && who2 == p.participant) implies find_part_from(
                        s2,
                        pid2,
                        who2,
                        0,
                    ) == find_part_from(s, pid2, who2, 0) by {
                        lemma_part_update_other(s, pid, i as int, p, pid2, who2, 0);
                    }
                    assert forall|k: int| 0 <= k < s2.len() implies (#[trigger] s2[k]).1.wf() by {
                        if k != i as int {
                            assert(s2[k] == s[k]);
                        } else {
                            assert(s2[k] == (pid, p));
                        }
                    }
                }
                self.entries[i] = (pid, p);
                return;
            }
            i += 1;
        }
        proof {
            let s = self.entries@;
            let s2 = s.push((pid, p));
            lemma_part_push_new(s, pid, p, 0);
            assert forall|pid2: u64, who2: u64|
                !(pid2 == pid && who2 == p.participant) implies find_part_from(s2, pid2, who2, 0)
                == find_part_from(s, pid2, who2, 0) by {
                lemma_part_push_other(s, pid, p, pid2, who2, 0);
            }
            assert forall|k: int| 0 <= k < s2.len() implies (#[trigger] s2[k]).1.wf() by {
                if k != s.len() {
                    assert(s2[k] == s[k]);
                } else {
                    assert(s2[k] == (pid, p));
                }
            }
        }
        self.entries.push((pid, p));
    }
}

} // verus!
