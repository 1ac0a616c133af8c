//! Rotating-savings groups (ROSCA style, e.g. ajo / chama / esusu) with a
//! referral reward layer, as a verified state machine.
//!
//! - Members join a group and contribute a fixed amount every round.
//! - Each round, the pooled contributions are paid out to one member,
//!   rotating through the membership list in join order.
//! - A configurable slice (basis points) of every contribution is routed
//!   into a referral balance for whoever referred that member, claimable
//!   independently of the group's payout cycle.
//!
//! [`GroupsContract`] holds the whole contract state; each entry point takes
//! the inputs of a call (the ledger time among them) and gives back what the
//! host must then do: the token transfers that the call implies.
pub mod account;
pub mod error;
pub mod group;
pub mod keyed;
pub mod referral;

use vstd::prelude::*;

use crate::account::{opt_view, AccountId};
use crate::error::Error;
use crate::group::{lemma_split_bounds, params_valid, Group, GroupState, Payout};
use crate::keyed::{entries_map, keys_unique, lemma_empty, lemma_entry, lemma_no_entry, lemma_push, lemma_update};
use crate::referral::{
    balance_in, credit_target, credit_target_of, recorded_referrer, referrer_to_record, BalanceKey,
    ReferralBook, ReferrerKey, ReferrerRecords,
};

verus! {

/// The contract state as a mathematical value.
pub struct ContractState {
    /// The admin, once the contract is initialized.
    pub admin: Option<Seq<u8>>,
    /// The group counter: the id that the next group gets.
    pub group_count: u64,
    /// Every stored group, by id.
    pub groups: Map<u64, GroupState>,
    /// Who referred whom, per (group id, member).
    pub referrers: Map<ReferrerKey, Seq<u8>>,
    /// Claimable referral balances, per (referrer, token).
    pub balances: Map<BalanceKey, i128>,
}

/// What a contribution moves, as a mathematical value.
pub struct ContributionView {
    pub token: Seq<u8>,
    pub pool_amount: int,
    pub referral_cut: int,
    pub referrer: Option<Seq<u8>>,
}

/// What a round's close pays, as a mathematical value.
pub struct PayoutView {
    pub recipient: Seq<u8>,
    pub token: Seq<u8>,
    pub amount: int,
}

impl ContractState {
    /// Every group is well formed and stored under its own id; no referral
    /// balance is negative.
    pub open spec fn wf(self) -> bool {
        &&& forall|id: u64| #[trigger]
            self.groups.contains_key(id) ==> self.groups[id].wf() && self.groups[id].id == id
        &&& forall|k: BalanceKey| #[trigger] self.balances.contains_key(k) ==> self.balances[k] >= 0
    }

    /// The claimable referral balance of `referrer` in `token`.
    pub open spec fn balance(self, referrer: Seq<u8>, token: Seq<u8>) -> i128 {
        balance_in(self.balances, referrer, token)
    }

    // ---- initialize

    pub open spec fn initialize_error(self) -> Option<Error> {
        if self.admin is Some {
            Some(Error::AlreadyInitialized)
        } else {
            None
        }
    }

    pub open spec fn initialized(self, admin: Seq<u8>) -> ContractState {
        ContractState { admin: Some(admin), group_count: 0, ..self }
    }

    // ---- create_group

    pub open spec fn created(
        self,
        creator: Seq<u8>,
        token: Seq<u8>,
        contribution_amount: i128,
        round_period: u64,
        max_members: u32,
        referral_bps: u32,
        now: u64,
    ) -> ContractState {
        ContractState {
            group_count: (self.group_count + 1) as u64,
            groups: self.groups.insert(
                self.group_count,
                GroupState::opened(
                    self.group_count,
                    creator,
                    token,
                    contribution_amount,
                    round_period,
                    max_members,
                    referral_bps,
                    now,
                ),
            ),
            ..self
        }
    }

    // ---- join_group

    pub open spec fn join_error(self, group_id: u64, member: Seq<u8>) -> Option<Error> {
        if !self.groups.contains_key(group_id) {
            Some(Error::GroupNotFound)
        } else {
            self.groups[group_id].join_error(member)
        }
    }

    /// After a join: the member is last in the rotation, and a referrer other
    /// than the member themself is recorded.
    pub open spec fn joined(self, group_id: u64, member: Seq<u8>, referrer: Option<Seq<u8>>) -> ContractState {
        ContractState {
            groups: self.groups.insert(group_id, self.groups[group_id].joined(member)),
            referrers: match recorded_referrer(member, referrer) {
                Some(r) => self.referrers.insert((group_id, member), r),
                None => self.referrers,
            },
            ..self
        }
    }

    // ---- contribute

    pub open spec fn contribute_error(self, group_id: u64, member: Seq<u8>) -> Option<Error> {
        if !self.groups.contains_key(group_id) {
            Some(Error::GroupNotFound)
        } else {
            self.groups[group_id].contribute_error(member)
        }
    }

    /// Who gets the referral cut of `member`'s contribution: their recorded
    /// referrer, when the cut is positive.
    pub open spec fn credited_referrer(self, group_id: u64, member: Seq<u8>) -> Option<Seq<u8>> {
        credit_target_of(
            self.groups[group_id].cut(),
            if self.referrers.contains_key((group_id, member)) {
                Some(self.referrers[(group_id, member)])
            } else {
                None
            },
        )
    }

    pub open spec fn contribution(self, group_id: u64, member: Seq<u8>) -> ContributionView {
        let g = self.groups[group_id];
        ContributionView {
            token: g.token,
            pool_amount: g.pool(),
            referral_cut: g.cut(),
            referrer: self.credited_referrer(group_id, member),
        }
    }

    /// Whether the arithmetic of a contribution stays in `i128`.
    pub open spec fn contribution_fits(self, group_id: u64, member: Seq<u8>) -> bool {
        let g = self.groups[group_id];
        &&& g.split_fits()
        &&& match self.credited_referrer(group_id, member) {
            Some(r) => self.balance(r, g.token) + g.cut() <= i128::MAX,
            None => true,
        }
    }

    pub open spec fn contributed(self, group_id: u64, member: Seq<u8>) -> ContractState {
        let g = self.groups[group_id];
        ContractState {
            groups: self.groups.insert(group_id, g.contributed(member)),
            balances: match self.credited_referrer(group_id, member) {
                Some(r) => self.balances.insert(
                    (r, g.token),
                    (self.balance(r, g.token) + g.cut()) as i128,
                ),
                None => self.balances,
            },
            ..self
        }
    }

    // ---- advance_round

    pub open spec fn advance_error(self, group_id: u64, now: u64) -> Option<Error> {
        if !self.groups.contains_key(group_id) {
            Some(Error::GroupNotFound)
        } else {
            self.groups[group_id].advance_error(now)
        }
    }

    /// Whether the arithmetic of closing a round stays in range.
    pub open spec fn advance_fits(self, group_id: u64, now: u64) -> bool {
        let g = self.groups[group_id];
        &&& g.active ==> g.deadline() <= u64::MAX
        &&& g.advance_error(now) is None ==> g.split_fits() && g.payout() <= i128::MAX
    }

    pub open spec fn payout(self, group_id: u64) -> PayoutView {
        let g = self.groups[group_id];
        PayoutView { recipient: g.recipient(), token: g.token, amount: g.payout() }
    }

    pub open spec fn advanced(self, group_id: u64, now: u64) -> ContractState {
        ContractState {
            groups: self.groups.insert(group_id, self.groups[group_id].advanced(now)),
            ..self
        }
    }

    // ---- claim_referral

    /// After a claim: a positive balance is zeroed, any other is left.
    pub open spec fn claimed(self, referrer: Seq<u8>, token: Seq<u8>) -> ContractState {
        if self.balance(referrer, token) > 0 {
            ContractState { balances: self.balances.insert((referrer, token), 0), ..self }
        } else {
            self
        }
    }
}

/// What a contribution moves: the member pays `pool_amount` and
/// `referral_cut` of `token` to the contract; the cut is credited to
/// `referrer` when there is one.
#[derive(Debug)]
pub struct Contribution {
    pub token: AccountId,
    pub pool_amount: i128,
    pub referral_cut: i128,
    pub referrer: Option<AccountId>,
}

impl View for Contribution {
    type V = ContributionView;

    open spec fn view(&self) -> ContributionView {
        ContributionView {
            token: self.token@,
            pool_amount: self.pool_amount as int,
            referral_cut: self.referral_cut as int,
            referrer: opt_view(self.referrer),
        }
    }
}

impl View for Payout {
    type V = PayoutView;

    open spec fn view(&self) -> PayoutView {
        PayoutView { recipient: self.recipient@, token: self.token@, amount: self.amount as int }
    }
}

/// The state of the groups contract.
#[derive(Debug)]
pub struct GroupsContract {
    admin: Option<AccountId>,
    group_count: u64,
    groups: Vec<Group>,
    referrers: ReferrerRecords,
    balances: ReferralBook,
}

impl View for GroupsContract {
    type V = ContractState;

    closed spec fn view(&self) -> ContractState {
        ContractState {
            admin: opt_view(self.admin),
            group_count: self.group_count,
            groups: entries_map(self.group_seq()),
            referrers: self.referrers@,
            balances: self.balances@,
        }
    }
}

impl GroupsContract {
    closed spec fn group_seq(self) -> Seq<(u64, GroupState)> {
        self.groups@.map_values(|g: Group| (g.id, g@))
    }

    /// The state's invariant: the stored collections are consistent and the
    /// contract state is well formed.
    pub closed spec fn wf(self) -> bool {
        &&& keys_unique(self.group_seq())
        &&& self.referrers.wf()
        &&& self.balances.wf()
        &&& self@.wf()
    }

    /// A contract with nothing stored: not initialized, no groups.
    pub fn new() -> (r: GroupsContract)
        ensures
            r.wf(),
            r@ == (ContractState {
                admin: None,
                group_count: 0,
                groups: Map::empty(),
                referrers: Map::empty(),
                balances: Map::empty(),
            }),
    {
        let r = GroupsContract {
            admin: None,
            group_count: 0,
            groups: Vec::new(),
            referrers: ReferrerRecords::new(),
            balances: ReferralBook::new(),
        };
        proof {
            lemma_empty::<u64, GroupState>();
            assert(r.group_seq() =~= Seq::<(u64, GroupState)>::empty());
        }
        r
    }

    /// The position of the group with id `group_id`, if it is stored.
    fn find_group(&self, group_id: u64) -> (r: Option<usize>)
        requires
            self.wf(),
        ensures
            r matches Some(i) ==> {
                &&& i < self.groups@.len()
                &&& self.groups@[i as int].id == group_id
                &&& self@.groups.contains_key(group_id)
                &&& self@.groups[group_id] == self.groups@[i as int]@
            },
            r is None ==> !self@.groups.contains_key(group_id),
    {
        let mut i: usize = 0;
        while i < self.groups.len()
            invariant
                i <= self.groups@.len(),
                keys_unique(self.group_seq()),
                forall|j: int| 0 <= j < i ==> #[trigger] self.group_seq()[j].0 != group_id,
            decreases self.groups.len() - i,
        {
            if self.groups[i].id == group_id {
                proof {
                    lemma_entry(self.group_seq(), i as int);
                }
                return Some(i);
            }
            i = i + 1;
        }
        proof {
            lemma_no_entry(self.group_seq(), group_id);
        }
        None
    }

    /// Replaces the group at position `i` by `g`, which has the same id.
    fn store_group(&mut self, i: usize, g: Group)
        requires
            old(self).wf(),
            i < old(self).groups@.len(),
            g.id == old(self).groups@[i as int].id,
            g@.wf(),
        ensures
            keys_unique(final(self).group_seq()),
            final(self)@ == (ContractState {
                groups: old(self)@.groups.insert(g.id, g@),
                ..old(self)@
            }),
            final(self).referrers == old(self).referrers,
            final(self).balances == old(self).balances,
            final(self).wf(),
    {
        let ghost s = self.group_seq();
        let ghost gv = g@;
        let ghost id = g.id;
        self.groups.set(i, g);
        proof {
            lemma_update(s, i as int, gv);
            assert(self.group_seq() =~= s.update(i as int, (s[i as int].0, gv)));
        }
    }

    /// One-time setup: stores the admin and resets the group counter.
    pub fn initialize(&mut self, admin: AccountId) -> (r: Result<(), Error>)
        requires
            old(self).wf(),
        ensures
            final(self).wf(),
            r is Err <==> old(self)@.initialize_error() is Some,
            r matches Err(e) ==> old(self)@.initialize_error() == Some(e) && final(self)@ == old(self)@,
            r is Ok ==> final(self)@ == old(self)@.initialized(admin@),
    {
        if self.admin.is_some() {
            return Err(Error::AlreadyInitialized);
        }
        self.admin = Some(admin);
        self.group_count = 0;
        Ok(())
    }

    /// Creates a new rotating-savings group; the creator becomes its first
    /// member and round 0 starts at `now`. Gives back the new group's id.
    ///
    /// `referral_bps` is the portion of every contribution (in basis points,
    /// max 1000 = 10%) that is routed to a referrer's claimable balance
    /// instead of the payout pool.
    pub fn create_group(
        &mut self,
        creator: AccountId,
        token: AccountId,
        contribution_amount: i128,
        round_period: u64,
        max_members: u32,
        referral_bps: u32,
        now: u64,
    ) -> (r: Result<u64, Error>)
        requires
            old(self).wf(),
            params_valid(contribution_amount, max_members, referral_bps) ==> old(self)@.group_count
                < u64::MAX,
        ensures
            final(self).wf(),
            r is Err <==> !params_valid(contribution_amount, max_members, referral_bps),
            r is Ok <==> contribution_amount > 0 && max_members >= 2 && referral_bps <= 1000,
            r matches Err(e) ==> e == Error::InvalidParams && final(self)@ == old(self)@,
            r matches Ok(id) ==> id == old(self)@.group_count && final(self)@ == old(self)@.created(
                creator@,
                token@,
                contribution_amount,
                round_period,
                max_members,
                referral_bps,
                now,
            ),
    {
        let group_id = self.group_count;
        let group = match Group::create(
            group_id,
            creator,
            token,
            contribution_amount,
            round_period,
            max_members,
            referral_bps,
            now,
        ) {
            Err(e) => return Err(e),
            Ok(g) => g,
        };
        self.group_count = group_id + 1;
        let ghost gv = group@;
        let ghost s = self.group_seq();
        match self.find_group(group_id) {
            Some(i) => {
                self.groups.set(i, group);
                proof {
                    lemma_update(s, i as int, gv);
                    assert(self.group_seq() =~= s.update(i as int, (s[i as int].0, gv)));
                }
            },
            None => {
                self.groups.push(group);
                proof {
                    lemma_push(s, group_id, gv);
                    assert(self.group_seq() =~= s.push((group_id, gv)));
                }
            },
        }
        Ok(group_id)
    }

    /// Joins an existing group. `referrer`, if given, earns a share of this
    /// member's future contributions. A member cannot refer themselves.
    pub fn join_group(&mut self, group_id: u64, member: AccountId, referrer: Option<AccountId>) -> (r:
        Result<(), Error>)
        requires
            old(self).wf(),
        ensures
            final(self).wf(),
            r is Err <==> old(self)@.join_error(group_id, member@) is Some,
            r matches Err(e) ==> old(self)@.join_error(group_id, member@) == Some(e) && final(self)@ == old(self)@,
            r is Ok ==> final(self)@ == old(self)@.joined(group_id, member@, opt_view(referrer)),
    {
        let i = match self.find_group(group_id) {
            Some(i) => i,
            None => return Err(Error::GroupNotFound),
        };
        let mut g = self.groups[i].copy();
        let ghost m = member@;
        let key = member.duplicate();
        match g.join(member) {
            Err(e) => return Err(e),
            Ok(()) => {},
        }
        self.store_group(i, g);
        match referrer_to_record(&key, referrer) {
            Some(r) => self.referrers.record(group_id, &key, r),
            None => {},
        }
        Ok(())
    }

    /// Pays this round's contribution. Splits it between the payout pool
    /// and (if the caller was referred) the referrer's claimable balance.
    pub fn contribute(&mut self, group_id: u64, member: AccountId) -> (r: Result<Contribution, Error>)
        requires
            old(self).wf(),
            old(self)@.contribute_error(group_id, member@) is None ==> old(self)@.contribution_fits(
                group_id,
                member@,
            ),
        ensures
            final(self).wf(),
            r is Err <==> old(self)@.contribute_error(group_id, member@) is Some,
            r matches Err(e) ==> old(self)@.contribute_error(group_id, member@) == Some(e) && final(self)@ == old(self)@,
            r matches Ok(c) ==> final(self)@ == old(self)@.contributed(group_id, member@) && c@
                == old(self)@.contribution(group_id, member@),
    {
        let i = match self.find_group(group_id) {
            Some(i) => i,
            None => return Err(Error::GroupNotFound),
        };
        let mut g = self.groups[i].copy();
        let (cut, pool) = match g.record_contribution(&member) {
            Err(e) => return Err(e),
            Ok(split) => split,
        };
        let token = g.token.duplicate();
        let credited = credit_target(cut, self.referrers.referrer_of(group_id, &member));
        match &credited {
            Some(referrer) => self.balances.credit(referrer, &token, cut),
            None => {},
        }
        self.store_group(i, g);
        Ok(Contribution { token, pool_amount: pool, referral_cut: cut, referrer: credited })
    }

    /// Closes the round once `round_period` has elapsed at time `now`,
    /// paying the round's pool to the next member in rotation (join order).
    pub fn advance_round(&mut self, group_id: u64, now: u64) -> (r: Result<Payout, Error>)
        requires
            old(self).wf(),
            old(self)@.groups.contains_key(group_id) ==> old(self)@.advance_fits(group_id, now),
        ensures
            final(self).wf(),
            r is Err <==> old(self)@.advance_error(group_id, now) is Some,
            r matches Err(e) ==> old(self)@.advance_error(group_id, now) == Some(e) && final(self)@ == old(self)@,
            r matches Ok(p) ==> final(self)@ == old(self)@.advanced(group_id, now) && p@ == old(self)@.payout(group_id),
    {
        let i = match self.find_group(group_id) {
            Some(i) => i,
            None => return Err(Error::GroupNotFound),
        };
        let mut g = self.groups[i].copy();
        proof {
            let gs = g@;
            if gs.advance_error(now) is None {
                lemma_split_bounds(gs.contribution_amount as int, gs.referral_bps as int);
                let n = gs.contributions_this_round.len() as int;
                assert(0 <= gs.pool() * n) by (nonlinear_arith)
                    requires
                        gs.pool() > 0,
                        n >= 0,
                ;
            }
        }
        let p = match g.advance(now) {
            Err(e) => return Err(e),
            Ok(p) => p,
        };
        self.store_group(i, g);
        Ok(p)
    }

    /// Claims a referrer's accrued balance for a given token: gives it back
    /// and zeroes it.
    pub fn claim_referral(&mut self, referrer: AccountId, token: AccountId) -> (r: Result<i128, Error>)
        requires
            old(self).wf(),
        ensures
            final(self).wf(),
            r == Ok::<i128, Error>(old(self)@.balance(referrer@, token@)),
            final(self)@ == old(self)@.claimed(referrer@, token@),
    {
        let bal = self.balances.take(&referrer, &token);
        Ok(bal)
    }

    /// The current claimable referral balance.
    pub fn referral_balance(&self, referrer: AccountId, token: AccountId) -> (r: i128)
        requires
            self.wf(),
        ensures
            r == self@.balance(referrer@, token@),
    {
        self.balances.peek(&referrer, &token)
    }

    /// The full state of a group.
    pub fn get_group(&self, group_id: u64) -> (r: Result<Group, Error>)
        requires
            self.wf(),
        ensures
            r is Err <==> !self@.groups.contains_key(group_id),
            r matches Err(e) ==> e == Error::GroupNotFound,
            r matches Ok(g) ==> g@ == self@.groups[group_id],
    {
        match self.find_group(group_id) {
            Some(i) => Ok(self.groups[i].copy()),
            None => Err(Error::GroupNotFound),
        }
    }

    /// The group counter: how many groups were created since the counter
    /// was last reset.
    pub fn group_count(&self) -> (r: u64)
        ensures
            r == self@.group_count,
    {
        self.group_count
    }
}

} // verus!
pub mod laws;
