use vstd::prelude::*;
use vstd::arithmetic::div_mod::lemma_div_pos_is_pos;
use vstd::arithmetic::mul::lemma_mul_nonnegative;
use crate::balances::Balances;
use crate::errors::LaunchError;
use crate::storage::{Participation, Participations, Project};
use crate::vesting::{spec_vested, TOKEN_SCALE};
use crate::storage::VestingSchedule;

verus! {

/// The token-launch ledger: the project registry, the participation ledger,
/// the loyalty-points sub-ledger and the vesting engine, all over one
/// explicit state record. Principals and token contracts are identified by
/// plain `u64` ids, and the current time is a parameter of every time-gated
/// operation; reading the clock, checking caller credentials and moving the
/// issued token are the surrounding host's work.
pub struct TokenLaunch {
    initialized: bool,
    admin: u64,
    star_token: u64,
    projects: Vec<Project>,
    participations: Participations,
    star_points: Balances,
}

/// The admin, points-ledger address and initialization flag agree.
pub open spec fn same_config(a: TokenLaunch, b: TokenLaunch) -> bool {
    &&& b.spec_initialized() == a.spec_initialized()
    &&& b.spec_admin() == a.spec_admin()
    &&& b.spec_star_token() == a.spec_star_token()
}

/// Every project of `a` exists unchanged in `b`, and no project was added.
pub open spec fn same_projects(a: TokenLaunch, b: TokenLaunch) -> bool {
    &&& b.spec_project_count() == a.spec_project_count()
    &&& forall|pid: u64| a.has_project(pid) ==> b.spec_project(pid) == a.spec_project(pid)
}

/// Every participation record agrees between `a` and `b`.
pub open spec fn same_participations(a: TokenLaunch, b: TokenLaunch) -> bool {
    forall|pid: u64, who: u64| b.spec_participation(pid, who) == a.spec_participation(pid, who)
}

/// Every points balance agrees between `a` and `b`.
pub open spec fn same_points(a: TokenLaunch, b: TokenLaunch) -> bool {
    forall|w: u64| b.spec_points(w) == a.spec_points(w)
}

/// What one successful `participate_in_project` call does: the points
/// balance is debited, the participation record grows by exactly this
/// call's deltas, the project's raised total grows by the effective amount,
/// and nothing else moves.
pub open spec fn participate_post(
    pre: TokenLaunch,
    post: TokenLaunch,
    now: u64,
    project_id: u64,
    participant: u64,
    amount: i128,
    star_points_to_use: i128,
) -> bool {
    let proj = pre.spec_project(project_id);
    let prev = pre.spec_participation_or_empty(project_id, participant);
    let effective = amount + star_points_to_use;
    let delta = effective * (TOKEN_SCALE as int) / (proj.price_per_token as int);
    &&& same_config(pre, post)
    &&& post.spec_project_count() == pre.spec_project_count()
    &&& forall|pid: u64|
        pid != project_id && pre.has_project(pid) ==> post.spec_project(pid) == pre.spec_project(
            pid,
        )
    &&& post.has_project(project_id)
    &&& post.spec_project(project_id) == (Project {
        total_raised: (proj.total_raised + effective) as i128,
        ..proj
    })
    &&& post.spec_project(project_id).total_raised == proj.total_raised + effective
    &&& (match post.spec_participation(project_id, participant) {
        Some(p) => {
            &&& p.participant == participant
            &&& p.amount_contributed == prev.amount_contributed + amount
            &&& p.tokens_allocated == prev.tokens_allocated + delta
            &&& p.tokens_claimed == prev.tokens_claimed
            &&& p.star_points_used == prev.star_points_used + star_points_to_use
            &&& p.last_claim_time == prev.last_claim_time
        },
        None => false,
    })
    &&& forall|pid2: u64, who2: u64|
        !(pid2 == project_id && who2 == participant) ==> post.spec_participation(pid2, who2)
            == pre.spec_participation(pid2, who2)
    &&& post.spec_points(participant) == pre.spec_points(participant) - star_points_to_use
    &&& forall|w: u64| w != participant ==> post.spec_points(w) == pre.spec_points(w)
}

/// What one successful `claim_tokens` call does: exactly the newly vested
/// amount is released, the record's claimed total becomes the vested
/// amount, and nothing else moves.
pub open spec fn claim_post(
    pre: TokenLaunch,
    post: TokenLaunch,
    now: u64,
    project_id: u64,
    participant: u64,
    claimed: i128,
) -> bool {
    let proj = pre.spec_project(project_id);
    let prev = pre.spec_participation_or_empty(project_id, participant);
    let vested = spec_vested(
        prev.tokens_allocated as int,
        proj.vesting_start as int,
        proj.vesting_duration as int,
        now as int,
    );
    &&& claimed == vested - prev.tokens_claimed
    &&& claimed > 0
    &&& same_config(pre, post)
    &&& same_projects(pre, post)
    &&& (match post.spec_participation(project_id, participant) {
        Some(p) => p == (Participation {
            tokens_claimed: vested as i128,
            last_claim_time: now,
            ..prev
        }) && p.tokens_claimed == vested,
        None => false,
    })
    &&& forall|pid2: u64, who2: u64|
        !(pid2 == project_id && who2 == participant) ==> post.spec_participation(pid2, who2)
            == pre.spec_participation(pid2, who2)
    &&& same_points(pre, post)
}

impl TokenLaunch {
    pub closed spec fn spec_initialized(self) -> bool {
        self.initialized
    }

    pub closed spec fn spec_admin(self) -> u64 {
        self.admin
    }

    pub closed spec fn spec_star_token(self) -> u64 {
        self.star_token
    }

    /// How many projects were ever created; ids run from 1 to this count.
    pub closed spec fn spec_project_count(self) -> int {
        self.projects@.len() as int
    }

    pub open spec fn has_project(self, pid: u64) -> bool {
        1 <= pid <= self.spec_project_count()
    }

    pub closed spec fn spec_project(self, pid: u64) -> Project
        recommends
            self.has_project(pid),
    {
        self.projects@[pid - 1]
    }

    pub closed spec fn spec_participation(self, pid: u64, who: u64) -> Option<Participation> {
        self.participations.spec_get(pid, who)
    }

    /// The participation record of `(pid, who)`, or the empty record a
    /// first contribution starts from.
    pub open spec fn spec_participation_or_empty(self, pid: u64, who: u64) -> Participation {
        match self.spec_participation(pid, who) {
            Some(p) => p,
            None => (Participation {
                participant: who,
                amount_contributed: 0,
                tokens_allocated: 0,
                tokens_claimed: 0,
                star_points_used: 0,
                last_claim_time: 0,
            }),
        }
    }

    pub closed spec fn spec_points(self, who: u64) -> i128 {
        self.star_points.spec_get(who)
    }

    /// Every project is well-formed and sits at the slot of its id, and
    /// every participation record and points balance is well-formed.
    pub closed spec fn wf(self) -> bool {
        &&& forall|k: int|
            0 <= k < self.projects@.len() ==> (#[trigger] self.projects@[k]).wf()
                && self.projects@[k].id == k + 1
        &&& self.participations.wf()
        &&& self.star_points.wf()
    }

    /// A well-formed stored project is well-formed as a record.
    pub proof fn lemma_project_wf(self, pid: u64)
        requires
            self.wf(),
            self.has_project(pid),
        ensures
            self.spec_project(pid).wf(),
            self.spec_project(pid).id == pid,
    {
    }

    /// A stored participation record is well-formed and keyed by its own
    /// participant; points balances are never negative.
    pub proof fn lemma_records_wf(self, pid: u64, who: u64)
        requires
            self.wf(),
        ensures
            self.spec_participation_or_empty(pid, who).wf(),
            self.spec_participation_or_empty(pid, who).participant == who,
            self.spec_points(who) >= 0,
    {
        self.participations.lemma_get_wf(pid, who);
        self.star_points.lemma_get_nonneg(who);
    }

    /// The empty ledger, before any initialization.
    pub fn new() -> (r: TokenLaunch)
        ensures
            r.wf(),
            !r.spec_initialized(),
            r.spec_project_count() == 0,
            forall|pid: u64, who: u64| r.spec_participation(pid, who) is None,
            forall|w: u64| r.spec_points(w) == 0,
    {
        TokenLaunch {
            initialized: false,
            admin: 0,
            star_token: 0,
            projects: Vec::new(),
            participations: Participations::new(),
            star_points: Balances::new(),
        }
    }

    /// Records the admin and the points-ledger address, exactly once.
    pub fn initialize(&mut self, admin: u64, star_token: u64) -> (r: Result<(), LaunchError>)
        requires
            old(self).wf(),
        ensures
            final(self).wf(),
            match r {
                Err(e) => {
                    &&& e == LaunchError::AlreadyInitialized
                    &&& old(self).spec_initialized()
                    &&& *final(self) == *old(self)
                },
                Ok(()) => {
                    &&& !old(self).spec_initialized()
                    &&& final(self).spec_initialized()
                    &&& final(self).spec_admin() == admin
                    &&& final(self).spec_star_token() == star_token
                    &&& same_projects(*old(self), *final(self))
                    &&& same_participations(*old(self), *final(self))
                    &&& same_points(*old(self), *final(self))
                },
            },
    {
        if self.initialized {
            return Err(LaunchError::AlreadyInitialized);
        }
        self.initialized = true;
        self.admin = admin;
        self.star_token = star_token;
        Ok(())
    }

    /// The first check `create_project` fails, if any: the supply must be
    /// positive, the three allocation buckets must fit in it (equality is
    /// accepted), the campaign window must be non-empty and the price
    /// positive.
    pub open spec fn create_err(
        total_supply: i128,
        airdrop_allocation: i128,
        liquidity_allocation: i128,
        team_allocation: i128,
        start_time: u64,
        end_time: u64,
        price_per_token: i128,
    ) -> Option<LaunchError> {
        if total_supply <= 0 {
            Some(LaunchError::InvalidAmount)
        } else if airdrop_allocation + liquidity_allocation + team_allocation > total_supply {
            Some(LaunchError::InvalidAllocation)
        } else if start_time >= end_time {
            Some(LaunchError::InvalidTimeRange)
        } else if price_per_token <= 0 {
            Some(LaunchError::InvalidPrice)
        } else {
            None
        }
    }

    /// Creates a campaign under the next project id. `creator` is the
    /// verified caller.
    pub fn create_project(
        &mut self,
        creator: u64,
        name: String,
        symbol: String,
        token_address: u64,
        total_supply: i128,
        airdrop_allocation: i128,
        liquidity_allocation: i128,
        team_allocation: i128,
        target_amount: i128,
        price_per_token: i128,
        min_contribution: i128,
        max_contribution: i128,
        start_time: u64,
        end_time: u64,
        vesting_duration: u64,
        vesting_cliff: u64,
    ) -> (r: Result<u64, LaunchError>)
        requires
            old(self).wf(),
            i128::MIN <= airdrop_allocation + liquidity_allocation <= i128::MAX,
            i128::MIN <= airdrop_allocation + liquidity_allocation + team_allocation
                <= i128::MAX,
            old(self).spec_project_count() < u64::MAX,
        ensures
            final(self).wf(),
            match r {
                Err(e) => {
                    &&& Some(e) == Self::create_err(
                        total_supply,
                        airdrop_allocation,
                        liquidity_allocation,
                        team_allocation,
                        start_time,
                        end_time,
                        price_per_token,
                    )
                    &&& *final(self) == *old(self)
                },
                Ok(id) => {
                    &&& Self::create_err(
                        total_supply,
                        airdrop_allocation,
                        liquidity_allocation,
                        team_allocation,
                        start_time,
                        end_time,
                        price_per_token,
                    ) is None
                    &&& id == old(self).spec_project_count() + 1
                    &&& final(self).spec_project_count() == old(self).spec_project_count() + 1
                    &&& final(self).has_project(id)
                    &&& final(self).spec_project(id) == (Project {
                        id,
                        creator,
                        name,
                        symbol,
                        token_address,
                        total_supply,
                        airdrop_allocation,
                        liquidity_allocation,
                        team_allocation,
                        total_raised: 0,
                        target_amount,
                        price_per_token,
                        min_contribution,
                        max_contribution,
                        start_time,
                        end_time,
                        vesting_start: end_time,
                        vesting_duration,
                        vesting_cliff,
                        is_active: true,
                        is_finalized: false,
                    })
                    &&& forall|pid: u64|
                        pid != id && old(self).has_project(pid) ==> final(self).spec_project(pid)
                            == old(self).spec_project(pid)
                    &&& same_config(*old(self), *final(self))
                    &&& same_participations(*old(self), *final(self))
                    &&& same_points(*old(self), *final(self))
                },
            },
    {
        if total_supply <= 0 {
            return Err(LaunchError::InvalidAmount);
        }
        if airdrop_allocation + liquidity_allocation + team_allocation > total_supply {
            return Err(LaunchError::InvalidAllocation);
        }
        if start_time >= end_time {
            return Err(LaunchError::InvalidTimeRange);
        }
        if price_per_token <= 0 {
            return Err(LaunchError::InvalidPrice);
        }
        let id = self.projects.len() as u64 + 1;
        let project = Project {
            id,
            creator,
            name,
            symbol,
            token_address,
            total_supply,
            airdrop_allocation,
            liquidity_allocation,
            team_allocation,
            total_raised: 0,
            target_amount,
            price_per_token,
            min_contribution,
            max_contribution,
            start_time,
            end_time,
            vesting_start: end_time,
            vesting_duration,
            vesting_cliff,
            is_active: true,
            is_finalized: false,
        };
        self.projects.push(project);
        proof {
            assert forall|k: int|
                0 <= k < self.projects@.len() implies (#[trigger] self.projects@[k]).wf()
                && self.projects@[k].id == k + 1 by {
                if k < old(self).projects@.len() {
                    assert(self.projects@[k] == old(self).projects@[k]);
                }
            }
        }
        Ok(id)
    }

    /// The first check `mint_star_points` fails, if any: the ledger must be
    /// initialized, the caller must be the admin, and the amount positive.
    pub open spec fn mint_err(self, caller: u64, amount: i128) -> Option<LaunchError> {
        if !self.spec_initialized() {
            Some(LaunchError::NotInitialized)
        } else if caller != self.spec_admin() {
            Some(LaunchError::Unauthorized)
        } else if amount <= 0 {
            Some(LaunchError::InvalidAmount)
        } else {
            None
        }
    }

    /// Credits `amount` loyalty points to `to`. `caller` is the verified
    /// caller and must be the admin.
    pub fn mint_star_points(&mut self, caller: u64, to: u64, amount: i128) -> (r: Result<
        (),
        LaunchError,
    >)
        requires
            old(self).wf(),
            old(self).mint_err(caller, amount) is None ==> old(self).spec_points(to) + amount
                <= i128::MAX,
        ensures
            final(self).wf(),
            match r {
                Err(e) => {
                    &&& Some(e) == old(self).mint_err(caller, amount)
                    &&& *final(self) == *old(self)
                },
                Ok(()) => {
                    &&& old(self).mint_err(caller, amount) is None
                    &&& final(self).spec_points(to) == old(self).spec_points(to) + amount
                    &&& forall|w: u64|
                        w != to ==> final(self).spec_points(w) == old(self).spec_points(w)
                    &&& same_config(*old(self), *final(self))
                    &&& same_projects(*old(self), *final(self))
                    &&& same_participations(*old(self), *final(self))
                },
            },
    {
        if !self.initialized {
            return Err(LaunchError::NotInitialized);
        }
        if caller != self.admin {
            return Err(LaunchError::Unauthorized);
        }
        if amount <= 0 {
            return Err(LaunchError::InvalidAmount);
        }
        let current = self.star_points.get(to);
        proof {
            self.star_points.lemma_get_nonneg(to);
        }
        self.star_points.set(to, current + amount);
        Ok(())
    }

    /// The first check `participate_in_project` fails, if any, in the order
    /// the checks are made: a positive contribution, non-negative points, an
    /// existing and active project, the campaign window, the per-call
    /// bounds, and a sufficient points balance when points are spent.
    pub open spec fn participate_err(
        self,
        now: u64,
        project_id: u64,
        participant: u64,
        amount: i128,
        star_points_to_use: i128,
    ) -> Option<LaunchError> {
        if amount <= 0 {
            Some(LaunchError::InvalidAmount)
        } else if star_points_to_use < 0 {
            Some(LaunchError::InvalidAmount)
        } else if !self.has_project(project_id) {
            Some(LaunchError::NotFound)
        } else {
            let proj = self.spec_project(project_id);
            if !proj.is_active {
                Some(LaunchError::ProjectNotActive)
            } else if now < proj.start_time || now > proj.end_time {
                Some(LaunchError::OutOfTimeWindow)
            } else if amount < proj.min_contribution {
                Some(LaunchError::BelowMinimum)
            } else if amount > proj.max_contribution {
                Some(LaunchError::AboveMaximum)
            } else if star_points_to_use > 0 && self.spec_points(participant)
                < star_points_to_use {
                Some(LaunchError::InsufficientPoints)
            } else {
                None
            }
        }
    }

    /// Machine limits a caller must respect for a contribution that would
    /// be accepted: none of the running totals may overflow `i128`.
    pub open spec fn participate_fits(
        self,
        now: u64,
        project_id: u64,
        participant: u64,
        amount: i128,
        star_points_to_use: i128,
    ) -> bool {
        self.participate_err(now, project_id, participant, amount, star_points_to_use)
            is None ==> {
            let proj = self.spec_project(project_id);
            let prev = self.spec_participation_or_empty(project_id, participant);
            let effective = amount + star_points_to_use;
            let delta = effective * (TOKEN_SCALE as int) / (proj.price_per_token as int);
            &&& effective * (TOKEN_SCALE as int) <= i128::MAX
            &&& prev.amount_contributed + amount <= i128::MAX
            &&& prev.tokens_allocated + delta <= i128::MAX
            &&& prev.star_points_used + star_points_to_use <= i128::MAX
            &&& proj.total_raised + effective <= i128::MAX
        }
    }

    /// Contributes `amount` to a project, optionally spending loyalty
    /// points, which join the contribution in the effective amount. Each
    /// call is a strictly additive delta on the cumulative record.
    /// `participant` is the verified caller.
    pub fn participate_in_project(
        &mut self,
        now: u64,
        project_id: u64,
        participant: u64,
        amount: i128,
        star_points_to_use: i128,
    ) -> (r: Result<(), LaunchError>)
        requires
            old(self).wf(),
            old(self).participate_fits(now, project_id, participant, amount, star_points_to_use),
        ensures
            final(self).wf(),
            match r {
                Err(e) => {
                    &&& Some(e) == old(self).participate_err(
                        now,
                        project_id,
                        participant,
                        amount,
                        star_points_to_use,
                    )
                    &&& *final(self) == *old(self)
                },
                Ok(()) => {
                    &&& old(self).participate_err(
                        now,
                        project_id,
                        participant,
                        amount,
                        star_points_to_use,
                    ) is None
                    &&& participate_post(
                        *old(self),
                        *final(self),
                        now,
                        project_id,
                        participant,
                        amount,
                        star_points_to_use,
                    )
                },
            },
    {
        if amount <= 0 {
            return Err(LaunchError::InvalidAmount);
        }
        if star_points_to_use < 0 {
            return Err(LaunchError::InvalidAmount);
        }
        if !(project_id >= 1 && project_id <= self.projects.len() as u64) {
            return Err(LaunchError::NotFound);
        }
        let idx = (project_id - 1) as usize;
        if !self.projects[idx].is_active {
            return Err(LaunchError::ProjectNotActive);
        }
        if now < self.projects[idx].start_time || now > self.projects[idx].end_time {
            return Err(LaunchError::OutOfTimeWindow);
        }
        if amount < self.projects[idx].min_contribution {
            return Err(LaunchError::BelowMinimum);
        }
        if amount > self.projects[idx].max_contribution {
            return Err(LaunchError::AboveMaximum);
        }
        if star_points_to_use > 0 {
            let pts = self.star_points.get(participant);
            if pts < star_points_to_use {
                return Err(LaunchError::InsufficientPoints);
            }
            self.star_points.set(participant, pts - star_points_to_use);
        }
        let effective = amount + star_points_to_use;
        proof {
            lemma_mul_nonnegative(effective as int, TOKEN_SCALE as int);
            lemma_div_pos_is_pos(
                effective as int * (TOKEN_SCALE as int),
                self.projects@[idx as int].price_per_token as int,
            );
        }
        let delta = (effective * TOKEN_SCALE) / self.projects[idx].price_per_token;
        let prev = match self.participations.get(project_id, participant) {
            Some(p) => p,
            None => Participation::empty(participant),
        };
        proof {
            self.participations.lemma_get_wf(project_id, participant);
        }
        let updated = Participation {
            participant,
            amount_contributed: prev.amount_contributed + amount,
            tokens_allocated: prev.tokens_allocated + delta,
            tokens_claimed: prev.tokens_claimed,
            star_points_used: prev.star_points_used + star_points_to_use,
            last_claim_time: prev.last_claim_time,
        };
        self.participations.put(project_id, updated);
        let new_raised = self.projects[idx].total_raised + effective;
        let mut proj = self.projects[idx].duplicate();
        proj.total_raised = new_raised;
        self.projects[idx] = proj;
        proof {
            assert forall|k: int|
                0 <= k < self.projects@.len() implies (#[trigger] self.projects@[k]).wf()
                && self.projects@[k].id == k + 1 by {
                if k != idx as int {
                    assert(self.projects@[k] == old(self).projects@[k]);
                }
            }
            assert forall|pid: u64|
                pid != project_id && old(self).has_project(pid) implies self.spec_project(pid)
                == old(self).spec_project(pid) by {
                assert(self.projects@[pid - 1] == old(self).projects@[pid - 1]);
            }
        }
        Ok(())
    }

    /// The first check `finalize_project` fails, if any: the project must
    /// exist, the caller must be its creator, the campaign must have ended,
    /// and it must not be finalized twice.
    pub open spec fn finalize_err(self, caller: u64, now: u64, project_id: u64) -> Option<
        LaunchError,
    > {
        if !self.has_project(project_id) {
            Some(LaunchError::NotFound)
        } else {
            let proj = self.spec_project(project_id);
            if caller != proj.creator {
                Some(LaunchError::Unauthorized)
            } else if now < proj.end_time {
                Some(LaunchError::ProjectNotEnded)
            } else if proj.is_finalized {
                Some(LaunchError::AlreadyFinalized)
            } else {
                None
            }
        }
    }

    /// Closes a campaign for good: deactivates it and starts vesting at the
    /// actual finalize time, which may be later than the campaign end.
    /// `caller` is the verified caller and must be the creator. One-way:
    /// a second call fails.
    pub fn finalize_project(&mut self, caller: u64, now: u64, project_id: u64) -> (r: Result<
        (),
        LaunchError,
    >)
        requires
            old(self).wf(),
        ensures
            final(self).wf(),
            match r {
                Err(e) => {
                    &&& Some(e) == old(self).finalize_err(caller, now, project_id)
                    &&& *final(self) == *old(self)
                },
                Ok(()) => {
                    &&& old(self).finalize_err(caller, now, project_id) is None
                    &&& final(self).spec_project_count() == old(self).spec_project_count()
                    &&& final(self).spec_project(project_id) == (Project {
                        is_finalized: true,
                        is_active: false,
                        vesting_start: now,
                        ..old(self).spec_project(project_id)
                    })
                    &&& forall|pid: u64|
                        pid != project_id && old(self).has_project(pid)
                            ==> final(self).spec_project(pid) == old(self).spec_project(pid)
                    &&& same_config(*old(self), *final(self))
                    &&& same_participations(*old(self), *final(self))
                    &&& same_points(*old(self), *final(self))
                },
            },
    {
        if !(project_id >= 1 && project_id <= self.projects.len() as u64) {
            return Err(LaunchError::NotFound);
        }
        let idx = (project_id - 1) as usize;
        if caller != self.projects[idx].creator {
            return Err(LaunchError::Unauthorized);
        }
        if now < self.projects[idx].end_time {
            return Err(LaunchError::ProjectNotEnded);
        }
        if self.projects[idx].is_finalized {
            return Err(LaunchError::AlreadyFinalized);
        }
        let mut proj = self.projects[idx].duplicate();
        proj.is_finalized = true;
        proj.is_active = false;
        proj.vesting_start = now;
        self.projects[idx] = proj;
        proof {
            assert forall|k: int|
                0 <= k < self.projects@.len() implies (#[trigger] self.projects@[k]).wf()
                && self.projects@[k].id == k + 1 by {
                if k != idx as int {
                    assert(self.projects@[k] == old(self).projects@[k]);
                }
            }
            assert forall|pid: u64|
                pid != project_id && old(self).has_project(pid) implies self.spec_project(pid)
                == old(self).spec_project(pid) by {
                assert(self.projects@[pid - 1] == old(self).projects@[pid - 1]);
            }
        }
        Ok(())
    }

    /// The first check `claim_tokens` fails, if any: the project must exist
    /// and be finalized — before finalization every claim fails this way,
    /// however much time has passed — the caller must have participated,
    /// the cliff must have elapsed, and something new must have vested.
    pub open spec fn claim_err(self, now: u64, project_id: u64, participant: u64) -> Option<
        LaunchError,
    > {
        if !self.has_project(project_id) {
            Some(LaunchError::NotFound)
        } else {
            let proj = self.spec_project(project_id);
            if !proj.is_finalized {
                Some(LaunchError::NotFinalized)
            } else {
                match self.spec_participation(project_id, participant) {
                    None => Some(LaunchError::NotFound),
                    Some(part) => {
                        if now < proj.vesting_start + proj.vesting_cliff {
                            Some(LaunchError::CliffNotEnded)
                        } else if spec_vested(
                            part.tokens_allocated as int,
                            proj.vesting_start as int,
                            proj.vesting_duration as int,
                            now as int,
                        ) - part.tokens_claimed <= 0 {
                            Some(LaunchError::NothingToClaim)
                        } else {
                            None
                        }
                    },
                }
            }
        }
    }

    /// Machine limits a caller must respect for a claim: the cliff end must
    /// fit in `u64` and the one intermediate product in `i128`.
    pub open spec fn claim_fits(self, now: u64, project_id: u64, participant: u64) -> bool {
        self.has_project(project_id) ==> {
            let proj = self.spec_project(project_id);
            match self.spec_participation(project_id, participant) {
                Some(part) => {
                    &&& (proj.is_finalized ==> proj.vesting_start + proj.vesting_cliff
                        <= u64::MAX)
                    &&& (now > proj.vesting_start && now - proj.vesting_start
                        < proj.vesting_duration ==> part.tokens_allocated * (now
                        - proj.vesting_start) <= i128::MAX)
                },
                None => true,
            }
        }
    }

    /// Releases everything vested so far and not yet claimed, and returns
    /// that amount; the caller then moves the tokens. The record is updated
    /// before any transfer happens. `participant` is the verified caller.
    pub fn claim_tokens(&mut self, now: u64, project_id: u64, participant: u64) -> (r: Result<
        i128,
        LaunchError,
    >)
        requires
            old(self).wf(),
            old(self).claim_fits(now, project_id, participant),
        ensures
            final(self).wf(),
            match r {
                Err(e) => {
                    &&& Some(e) == old(self).claim_err(now, project_id, participant)
                    &&& *final(self) == *old(self)
                },
                Ok(claimed) => {
                    &&& old(self).claim_err(now, project_id, participant) is None
                    &&& claim_post(
                        *old(self),
                        *final(self),
                        now,
                        project_id,
                        participant,
                        claimed,
                    )
                },
            },
    {
        if !(project_id >= 1 && project_id <= self.projects.len() as u64) {
            return Err(LaunchError::NotFound);
        }
        let idx = (project_id - 1) as usize;
        if !self.projects[idx].is_finalized {
            return Err(LaunchError::NotFinalized);
        }
        let part = match self.participations.get(project_id, participant) {
            Some(p) => p,
            None => {
                return Err(LaunchError::NotFound);
            },
        };
        proof {
            self.participations.lemma_get_wf(project_id, participant);
        }
        let vesting_start = self.projects[idx].vesting_start;
        let cliff_end = vesting_start + self.projects[idx].vesting_cliff;
        if now < cliff_end {
            return Err(LaunchError::CliffNotEnded);
        }
        let schedule = VestingSchedule {
            total_amount: part.tokens_allocated,
            claimed_amount: part.tokens_claimed,
            start_time: vesting_start,
            cliff_duration: self.projects[idx].vesting_cliff,
            total_duration: self.projects[idx].vesting_duration,
        };
        let vested = schedule.vested_at(now);
        let claimable = vested - part.tokens_claimed;
        if claimable <= 0 {
            return Err(LaunchError::NothingToClaim);
        }
        let updated = Participation {
            tokens_claimed: vested,
            last_claim_time: now,
            ..part
        };
        self.participations.put(project_id, updated);
        Ok(claimable)
    }

    /// The first check `distribute_airdrop` fails, if any: the project must
    /// exist, the caller must be its creator, and the two lists must have
    /// the same length.
    pub open spec fn airdrop_err(
        self,
        caller: u64,
        project_id: u64,
        n_recipients: int,
        n_amounts: int,
    ) -> Option<LaunchError> {
        if !self.has_project(project_id) {
            Some(LaunchError::NotFound)
        } else if caller != self.spec_project(project_id).creator {
            Some(LaunchError::Unauthorized)
        } else if n_recipients != n_amounts {
            Some(LaunchError::MismatchedArrays)
        } else {
            None
        }
    }

    /// Plans a creator-authorized bulk distribution outside the vesting
    /// path: the transfers to make, in order, one per recipient with a
    /// positive amount. No ledger bookkeeping happens; the caller performs
    /// the transfers. `caller` is the verified caller.
    pub fn distribute_airdrop(
        &self,
        caller: u64,
        project_id: u64,
        recipients: &Vec<u64>,
        amounts: &Vec<i128>,
    ) -> (r: Result<Vec<(u64, i128)>, LaunchError>)
        ensures
            match r {
                Err(e) => Some(e) == self.airdrop_err(
                    caller,
                    project_id,
                    recipients@.len() as int,
                    amounts@.len() as int,
                ),
                Ok(v) => {
                    &&& self.airdrop_err(
                        caller,
                        project_id,
                        recipients@.len() as int,
                        amounts@.len() as int,
                    ) is None
                    &&& v@ == spec_airdrop_transfers(recipients@, amounts@, 0)
                },
            },
    {
        if !(project_id >= 1 && project_id <= self.projects.len() as u64) {
            return Err(LaunchError::NotFound);
        }
        let idx = (project_id - 1) as usize;
        if caller != self.projects[idx].creator {
            return Err(LaunchError::Unauthorized);
        }
        if recipients.len() != amounts.len() {
            return Err(LaunchError::MismatchedArrays);
        }
        let n = recipients.len();
        let mut out: Vec<(u64, i128)> = Vec::new();
        let mut i: usize = 0;
        while i < n
            invariant
                n == recipients@.len(),
                n == amounts@.len(),
                i <= n,
                out@ + spec_airdrop_transfers(recipients@, amounts@, i as int)
                    == spec_airdrop_transfers(recipients@, amounts@, 0),
            decreases n - i,
        {
            let amount = amounts[i];
            if amount > 0 {
                proof {
                    let rs = recipients@;
                    let ams = amounts@;
                    let pair = (rs[i as int], ams[i as int]);
                    assert(out@.push(pair) + spec_airdrop_transfers(rs, ams, i + 1) =~= out@
                        + spec_airdrop_transfers(rs, ams, i as int));
                }
                out.push((recipients[i], amount));
            } else {
                proof {
                    assert(spec_airdrop_transfers(recipients@, amounts@, i + 1)
                        == spec_airdrop_transfers(recipients@, amounts@, i as int));
                }
            }
            i += 1;
        }
        proof {
            assert(out@ + spec_airdrop_transfers(recipients@, amounts@, n as int) =~= out@);
        }
        Ok(out)
    }

    /// Reads a project record; fails when the id was never assigned.
    pub fn get_project(&self, project_id: u64) -> (r: Result<Project, LaunchError>)
        ensures
            match r {
                Ok(p) => self.has_project(project_id) && p == self.spec_project(project_id),
                Err(e) => e == LaunchError::NotFound && !self.has_project(project_id),
            },
    {
        if project_id >= 1 && project_id <= self.projects.len() as u64 {
            Ok(self.projects[(project_id - 1) as usize].duplicate())
        } else {
            Err(LaunchError::NotFound)
        }
    }

    /// Reads a participation record, or the empty record when the pair
    /// never contributed.
    pub fn get_participation(&self, project_id: u64, participant: u64) -> (r: Participation)
        ensures
            r == self.spec_participation_or_empty(project_id, participant),
    {
        match self.participations.get(project_id, participant) {
            Some(p) => p,
            None => Participation::empty(participant),
        }
    }

    /// Reads a loyalty-points balance; accounts never seen have balance
    /// zero.
    pub fn get_star_points(&self, user: u64) -> (r: i128)
        ensures
            r == self.spec_points(user),
    {
        self.star_points.get(user)
    }

    /// How many projects were ever created.
    pub fn get_project_count(&self) -> (r: u64)
        ensures
            r == self.spec_project_count(),
    {
        self.projects.len() as u64
    }

    /// The admin principal; fails before initialization.
    pub fn get_admin(&self) -> (r: Result<u64, LaunchError>)
        ensures
            match r {
                Ok(a) => self.spec_initialized() && a == self.spec_admin(),
                Err(e) => e == LaunchError::NotInitialized && !self.spec_initialized(),
            },
    {
        if self.initialized {
            Ok(self.admin)
        } else {
            Err(LaunchError::NotInitialized)
        }
    }

    /// The points-ledger address; fails before initialization.
    pub fn get_star_token(&self) -> (r: Result<u64, LaunchError>)
        ensures
            match r {
                Ok(a) => self.spec_initialized() && a == self.spec_star_token(),
                Err(e) => e == LaunchError::NotInitialized && !self.spec_initialized(),
            },
    {
        if self.initialized {
            Ok(self.star_token)
        } else {
            Err(LaunchError::NotInitialized)
        }
    }
}

/// The transfers a bulk airdrop makes from position `i` on: one per
/// recipient whose amount is positive, in list order.
pub open spec fn spec_airdrop_transfers(recipients: Seq<u64>, amounts: Seq<i128>, i: int) -> Seq<
    (u64, i128),
>
    decreases recipients.len() - i,
{
    if i < 0 || i >= recipients.len() {
        Seq::empty()
    } else {
        let rest = spec_airdrop_transfers(recipients, amounts, i + 1);
        if amounts[i] > 0 {
            seq![(recipients[i], amounts[i])] + rest
        } else {
            rest
        }
    }
}

/// One accepted contribution: who contributed, how much, spending how many
/// points, at what time.
pub struct ContributionEvent {
    pub participant: u64,
    pub amount: i128,
    pub star_points: i128,
    pub time: u64,
}

/// `post` is what one successful `participate_in_project` call with `ev`
/// leaves behind, starting from the well-formed state `pre`.
pub open spec fn participate_step(
    pre: TokenLaunch,
    post: TokenLaunch,
    pid: u64,
    ev: ContributionEvent,
) -> bool {
    &&& pre.wf()
    &&& post.wf()
    &&& pre.participate_err(ev.time, pid, ev.participant, ev.amount, ev.star_points) is None
    &&& participate_post(pre, post, ev.time, pid, ev.participant, ev.amount, ev.star_points)
}

/// `post` is reachable from `pre` by the successful contributions `evs` to
/// project `pid`, in order.
pub open spec fn participate_trace(
    pre: TokenLaunch,
    pid: u64,
    evs: Seq<ContributionEvent>,
    post: TokenLaunch,
) -> bool
    decreases evs.len(),
{
    if evs.len() == 0 {
        post == pre
    } else {
        exists|mid: TokenLaunch|
            #[trigger] participate_step(pre, mid, pid, evs[0]) && participate_trace(
                mid,
                pid,
                evs.drop_first(),
                post,
            )
    }
}

/// The sum of the effective amounts (contribution plus points) of `evs`.
pub open spec fn sum_effective(evs: Seq<ContributionEvent>) -> int
    decreases evs.len(),
{
    if evs.len() == 0 {
        0
    } else {
        (evs[0].amount + evs[0].star_points) + sum_effective(evs.drop_first())
    }
}

/// The sum of the floor-divided allocation deltas of `who`'s contributions
/// in `evs`, at the fixed price `price`.
pub open spec fn sum_alloc(evs: Seq<ContributionEvent>, who: u64, price: int) -> int
    decreases evs.len(),
{
    if evs.len() == 0 {
        0
    } else {
        let rest = sum_alloc(evs.drop_first(), who, price);
        if evs[0].participant == who {
            (evs[0].amount + evs[0].star_points) * (TOKEN_SCALE as int) / price + rest
        } else {
            rest
        }
    }
}

/// The cumulative token entitlement of `(pid, who)`, zero before any
/// contribution.
pub open spec fn alloc_of(s: TokenLaunch, pid: u64, who: u64) -> int {
    s.spec_participation_or_empty(pid, who).tokens_allocated as int
}

/// The cumulative claimed amount of `(pid, who)`, zero before any claim.
pub open spec fn claimed_of(s: TokenLaunch, pid: u64, who: u64) -> int {
    s.spec_participation_or_empty(pid, who).tokens_claimed as int
}

/// Accounting of any run of accepted contributions to one project: the
/// project's raised total grows by exactly the sum of the effective
/// amounts, each participant's entitlement grows by exactly the sum of that
/// participant's floor-divided deltas, and the price does not move.
pub proof fn lemma_participate_trace_accounting(
    pre: TokenLaunch,
    pid: u64,
    evs: Seq<ContributionEvent>,
    post: TokenLaunch,
    who: u64,
)
    requires
        participate_trace(pre, pid, evs, post),
        pre.has_project(pid),
    ensures
        post.has_project(pid),
        post.spec_project(pid).price_per_token == pre.spec_project(pid).price_per_token,
        post.spec_project(pid).total_raised == pre.spec_project(pid).total_raised
            + sum_effective(evs),
        alloc_of(post, pid, who) == alloc_of(pre, pid, who) + sum_alloc(
            evs,
            who,
            pre.spec_project(pid).price_per_token as int,
        ),
    decreases evs.len(),
{
    if evs.len() == 0 {
    } else {
        let mid = choose|mid: TokenLaunch|
            #[trigger] participate_step(pre, mid, pid, evs[0]) && participate_trace(
                mid,
                pid,
                evs.drop_first(),
                post,
            );
        lemma_participate_trace_accounting(mid, pid, evs.drop_first(), post, who);
    }
}

/// One successful claim: when it was made and how much it released.
pub struct ClaimEvent {
    pub time: u64,
    pub amount: i128,
}

/// `post` is what one successful `claim_tokens` call at `ev.time` that
/// returned `ev.amount` leaves behind, starting from the well-formed state
/// `pre`.
pub open spec fn claim_step(
    pre: TokenLaunch,
    post: TokenLaunch,
    pid: u64,
    who: u64,
    ev: ClaimEvent,
) -> bool {
    &&& pre.wf()
    &&& post.wf()
    &&& pre.claim_err(ev.time, pid, who) is None
    &&& claim_post(pre, post, ev.time, pid, who, ev.amount)
}

/// `post` is reachable from `pre` by the successful claims `evs` of `who`
/// on project `pid`, in order.
pub open spec fn claim_trace(
    pre: TokenLaunch,
    pid: u64,
    who: u64,
    evs: Seq<ClaimEvent>,
    post: TokenLaunch,
) -> bool
    decreases evs.len(),
{
    if evs.len() == 0 {
        post == pre
    } else {
        exists|mid: TokenLaunch|
            #[trigger] claim_step(pre, mid, pid, who, evs[0]) && claim_trace(
                mid,
                pid,
                who,
                evs.drop_first(),
                post,
            )
    }
}

/// The sum of the amounts the claims in `evs` released.
pub open spec fn sum_claimed(evs: Seq<ClaimEvent>) -> int
    decreases evs.len(),
{
    if evs.len() == 0 {
        0
    } else {
        evs[0].amount + sum_claimed(evs.drop_first())
    }
}

/// Accounting of any run of successful claims by one participant: the
/// released amounts sum exactly to the growth of the claimed total, the
/// entitlement does not move, and what was claimed never exceeds what was
/// allocated.
pub proof fn lemma_claim_trace_accounting(
    pre: TokenLaunch,
    pid: u64,
    who: u64,
    evs: Seq<ClaimEvent>,
    post: TokenLaunch,
)
    requires
        claim_trace(pre, pid, who, evs, post),
        pre.wf(),
    ensures
        alloc_of(post, pid, who) == alloc_of(pre, pid, who),
        claimed_of(post, pid, who) == claimed_of(pre, pid, who) + sum_claimed(evs),
        claimed_of(post, pid, who) <= alloc_of(post, pid, who),
    decreases evs.len(),
{
    if evs.len() == 0 {
        pre.lemma_records_wf(pid, who);
    } else {
        let mid = choose|mid: TokenLaunch|
            #[trigger] claim_step(pre, mid, pid, who, evs[0]) && claim_trace(
                mid,
                pid,
                who,
                evs.drop_first(),
                post,
            );
        lemma_claim_trace_accounting(mid, pid, who, evs.drop_first(), post);
    }
}

} // verus!
