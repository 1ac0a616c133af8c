//! One rotating-savings group: its state, its invariant and the decisions
//! that joining, contributing and closing a round make on it.
use vstd::prelude::*;

use crate::account::{accounts_view, contains_account, copy_accounts, AccountId};
use crate::error::Error;

verus! {

/// The part of a contribution (in basis points of `amount`, out of 10 000)
/// that goes to a referrer; rounded down.
pub open spec fn referral_cut(amount: int, bps: int) -> int {
    amount * bps / 10000
}

/// The part of a contribution that goes into the round's payout pool.
pub open spec fn pool_share(amount: int, bps: int) -> int {
    amount - referral_cut(amount, bps)
}

/// The parameters that `create_group` accepts.
pub open spec fn params_valid(contribution_amount: i128, max_members: u32, referral_bps: u32) -> bool {
    &&& contribution_amount > 0
    &&& max_members >= 2
    &&& referral_bps <= 1000
}

/// A group as a mathematical value: addresses are their key bytes.
pub struct GroupState {
    pub id: u64,
    pub creator: Seq<u8>,
    pub token: Seq<u8>,
    pub contribution_amount: i128,
    pub round_period: u64,
    pub max_members: u32,
    pub members: Seq<Seq<u8>>,
    pub current_round: u32,
    pub round_start_ts: u64,
    pub contributions_this_round: Seq<Seq<u8>>,
    pub referral_bps: u32,
    pub active: bool,
}

impl GroupState {
    /// The group's invariant: valid parameters, between one and
    /// `max_members` distinct members, contributors of the round are
    /// distinct members, and an active group has not yet paid every member.
    pub open spec fn wf(self) -> bool {
        &&& params_valid(self.contribution_amount, self.max_members, self.referral_bps)
        &&& 1 <= self.members.len() <= self.max_members
        &&& self.members.no_duplicates()
        &&& self.contributions_this_round.no_duplicates()
        &&& forall|i: int|
            0 <= i < self.contributions_this_round.len() ==> self.members.contains(
                #[trigger] self.contributions_this_round[i],
            )
        &&& self.active ==> self.current_round < self.members.len()
    }

    /// The group that `create_group` opens.
    pub open spec fn opened(
        id: u64,
        creator: Seq<u8>,
        token: Seq<u8>,
        contribution_amount: i128,
        round_period: u64,
        max_members: u32,
        referral_bps: u32,
        now: u64,
    ) -> GroupState {
        GroupState {
            id,
            creator,
            token,
            contribution_amount,
            round_period,
            max_members,
            members: seq![creator],
            current_round: 0,
            round_start_ts: now,
            contributions_this_round: Seq::empty(),
            referral_bps,
            active: true,
        }
    }

    /// The error with which a join by `member` is refused, if any.
    pub open spec fn join_error(self, member: Seq<u8>) -> Option<Error> {
        if !self.active {
            Some(Error::GroupInactive)
        } else if self.members.len() >= self.max_members {
            Some(Error::GroupFull)
        } else if self.members.contains(member) {
            Some(Error::AlreadyMember)
        } else {
            None
        }
    }

    /// The group after `member` joined: last in the rotation.
    pub open spec fn joined(self, member: Seq<u8>) -> GroupState {
        GroupState { members: self.members.push(member), ..self }
    }

    /// The error with which a contribution by `member` is refused, if any.
    pub open spec fn contribute_error(self, member: Seq<u8>) -> Option<Error> {
        if !self.active {
            Some(Error::GroupInactive)
        } else if !self.members.contains(member) {
            Some(Error::NotMember)
        } else if self.contributions_this_round.contains(member) {
            Some(Error::AlreadyContributed)
        } else {
            None
        }
    }

    /// The group after `member` paid into the current round.
    pub open spec fn contributed(self, member: Seq<u8>) -> GroupState {
        GroupState { contributions_this_round: self.contributions_this_round.push(member), ..self }
    }

    /// The referral part of one contribution in this group.
    pub open spec fn cut(self) -> int {
        referral_cut(self.contribution_amount as int, self.referral_bps as int)
    }

    /// The pool part of one contribution in this group.
    pub open spec fn pool(self) -> int {
        pool_share(self.contribution_amount as int, self.referral_bps as int)
    }

    /// Whether the referral cut of a contribution can be computed in `i128`.
    pub open spec fn split_fits(self) -> bool {
        self.contribution_amount * self.referral_bps <= i128::MAX
    }

    /// Whether the arithmetic of closing the round stays in range: the
    /// split and the payout fit in `i128`, the round counter in `u32`.
    pub open spec fn advance_fits(self) -> bool {
        &&& self.contribution_amount >= 0
        &&& self.split_fits()
        &&& self.current_round < u32::MAX
        &&& i128::MIN <= self.payout() <= i128::MAX
    }

    /// The time from which the current round may be closed.
    pub open spec fn deadline(self) -> int {
        self.round_start_ts + self.round_period
    }

    /// The error with which closing the round at time `now` is refused, if any.
    pub open spec fn advance_error(self, now: u64) -> Option<Error> {
        if !self.active {
            Some(Error::GroupInactive)
        } else if now < self.deadline() {
            Some(Error::RoundNotReady)
        } else if self.members.len() == 0 {
            Some(Error::GroupNotFound)
        } else {
            None
        }
    }

    /// The member who receives the current round's pool.
    pub open spec fn recipient(self) -> Seq<u8> {
        self.members[(self.current_round as int) % (self.members.len() as int)]
    }

    /// What the current round pays out: one pool part per contribution made.
    pub open spec fn payout(self) -> int {
        self.pool() * self.contributions_this_round.len()
    }

    /// The group after the round was closed at time `now`.
    pub open spec fn advanced(self, now: u64) -> GroupState {
        GroupState {
            current_round: (self.current_round + 1) as u32,
            round_start_ts: now,
            contributions_this_round: Seq::empty(),
            active: self.current_round + 1 < self.members.len(),
            ..self
        }
    }
}

/// A rotating-savings group.
///
/// Members pay `contribution_amount` of `token` once per round; when a round
/// closes, the pooled payments go to the next member in join order.
#[derive(Debug)]
pub struct Group {
    pub id: u64,
    pub creator: AccountId,
    pub token: AccountId,
    /// Amount each member contributes per round, in the token's smallest unit.
    pub contribution_amount: i128,
    /// Minimum seconds that must elapse between rounds.
    pub round_period: u64,
    pub max_members: u32,
    /// Join order also defines payout rotation order.
    pub members: Vec<AccountId>,
    pub current_round: u32,
    pub round_start_ts: u64,
    /// Members who have already paid into the current round.
    pub contributions_this_round: Vec<AccountId>,
    /// Basis points (of contribution_amount) routed to a referrer, if any.
    pub referral_bps: u32,
    /// False once every member has received one payout (full cycle complete).
    pub active: bool,
}

impl View for Group {
    type V = GroupState;

    open spec fn view(&self) -> GroupState {
        GroupState {
            id: self.id,
            creator: self.creator@,
            token: self.token@,
            contribution_amount: self.contribution_amount,
            round_period: self.round_period,
            max_members: self.max_members,
            members: accounts_view(self.members@),
            current_round: self.current_round,
            round_start_ts: self.round_start_ts,
            contributions_this_round: accounts_view(self.contributions_this_round@),
            referral_bps: self.referral_bps,
            active: self.active,
        }
    }
}

/// What closing a round pays: `amount` of `token` to `recipient`.
#[derive(Debug)]
pub struct Payout {
    pub recipient: AccountId,
    pub token: AccountId,
    pub amount: i128,
}

/// Splits one contribution of `amount` into its referral cut and its pool
/// part, in that order.
pub fn referral_split(amount: i128, bps: u32) -> (r: (i128, i128))
    requires
        0 <= amount,
        amount * bps <= i128::MAX,
    ensures
        r.0 == referral_cut(amount as int, bps as int),
        r.1 == pool_share(amount as int, bps as int),
{
    proof {
        assert(0 <= amount * bps) by (nonlinear_arith)
            requires
                0 <= amount,
                0 <= bps,
        ;
    }
    let product: i128 = amount * (bps as i128);
    let cut: i128 = product / 10000;
    proof {
        assert(cut <= product) by (nonlinear_arith)
            requires
                cut == product / 10000,
                0 <= product,
        ;
    }
    (cut, amount - cut)
}

/// A valid contribution splits into a referral cut of at most a tenth and a
/// positive pool part, which add up to the contribution.
pub proof fn lemma_split_bounds(amount: int, bps: int)
    requires
        amount > 0,
        0 <= bps <= 1000,
    ensures
        0 <= referral_cut(amount, bps) <= amount / 10,
        referral_cut(amount, bps) + pool_share(amount, bps) == amount,
        pool_share(amount, bps) > 0,
{
    assert(0 <= amount * bps <= amount * 1000) by (nonlinear_arith)
        requires
            amount > 0,
            0 <= bps <= 1000,
    ;
    assert(amount * bps / 10000 <= amount * 1000 / 10000) by (nonlinear_arith)
        requires
            0 <= amount * bps <= amount * 1000,
    ;
    assert(amount * 1000 / 10000 == amount / 10) by (nonlinear_arith)
        requires
            amount > 0,
    ;
    assert(0 <= amount * bps / 10000) by (nonlinear_arith)
        requires
            0 <= amount * bps,
    ;
    assert(amount / 10 < amount) by (nonlinear_arith)
        requires
            amount > 0,
    ;
}

impl Group {
    /// A group with the given parameters, its creator as sole member,
    /// round 0 starting at `now`; refused with `InvalidParams` unless the
    /// contribution is positive, at least two members are allowed and the
    /// referral cut is at most 1000 basis points.
    pub fn create(
        id: u64,
        creator: AccountId,
        token: AccountId,
        contribution_amount: i128,
        round_period: u64,
        max_members: u32,
        referral_bps: u32,
        now: u64,
    ) -> (r: Result<Group, Error>)
        ensures
            r is Err <==> !params_valid(contribution_amount, max_members, referral_bps),
            r is Ok <==> contribution_amount > 0 && max_members >= 2 && referral_bps <= 1000,
            r matches Err(e) ==> e == Error::InvalidParams,
            r matches Ok(g) ==> g@ == GroupState::opened(
                id,
                creator@,
                token@,
                contribution_amount,
                round_period,
                max_members,
                referral_bps,
                now,
            ) && g@.wf(),
    {
        if contribution_amount <= 0 {
            return Err(Error::InvalidParams);
        }
        if max_members < 2 {
            return Err(Error::InvalidParams);
        }
        if referral_bps > 1000 {
            return Err(Error::InvalidParams);
        }
        let mut members: Vec<AccountId> = Vec::new();
        let ghost c = creator@;
        members.push(creator.duplicate());
        let r = Group {
            id,
            creator,
            token,
            contribution_amount,
            round_period,
            max_members,
            members,
            current_round: 0,
            round_start_ts: now,
            contributions_this_round: Vec::new(),
            referral_bps,
            active: true,
        };
        assert(r@.members =~= seq![c]);
        assert(r@.contributions_this_round =~= Seq::<Seq<u8>>::empty());
        Ok(r)
    }

    /// Whether `who` is a member.
    pub fn is_member(&self, who: &AccountId) -> (r: bool)
        ensures
            r == self@.members.contains(who@),
    {
        contains_account(&self.members, who)
    }

    /// Whether `who` has paid into the current round.
    pub fn has_contributed(&self, who: &AccountId) -> (r: bool)
        ensures
            r == self@.contributions_this_round.contains(who@),
    {
        contains_account(&self.contributions_this_round, who)
    }

    /// An equal, separate copy of this group.
    pub fn copy(&self) -> (r: Group)
        ensures
            r@ == self@,
    {
        Group {
            id: self.id,
            creator: self.creator.duplicate(),
            token: self.token.duplicate(),
            contribution_amount: self.contribution_amount,
            round_period: self.round_period,
            max_members: self.max_members,
            members: copy_accounts(&self.members),
            current_round: self.current_round,
            round_start_ts: self.round_start_ts,
            contributions_this_round: copy_accounts(&self.contributions_this_round),
            referral_bps: self.referral_bps,
            active: self.active,
        }
    }

    /// Why a join by `member` would be refused, if it would.
    pub fn join_refusal(&self, member: &AccountId) -> (r: Option<Error>)
        ensures
            r == self@.join_error(member@),
    {
        if !self.active {
            Some(Error::GroupInactive)
        } else if self.members.len() >= self.max_members as usize {
            Some(Error::GroupFull)
        } else if contains_account(&self.members, member) {
            Some(Error::AlreadyMember)
        } else {
            None
        }
    }

    /// Why a contribution by `member` would be refused, if it would.
    pub fn contribution_refusal(&self, member: &AccountId) -> (r: Option<Error>)
        ensures
            r == self@.contribute_error(member@),
    {
        if !self.active {
            Some(Error::GroupInactive)
        } else if !contains_account(&self.members, member) {
            Some(Error::NotMember)
        } else if contains_account(&self.contributions_this_round, member) {
            Some(Error::AlreadyContributed)
        } else {
            None
        }
    }

    /// Why closing the round at time `now` would be refused, if it would.
    pub fn advance_refusal(&self, now: u64) -> (r: Option<Error>)
        requires
            self@.active ==> self@.deadline() <= u64::MAX,
        ensures
            r == self@.advance_error(now),
            r == Some(Error::RoundNotReady) <==> self.active && now < self.round_start_ts
                + self.round_period,
            self.active && now >= self.round_start_ts + self.round_period && self.members@.len()
                > 0 ==> r is None,
    {
        if !self.active {
            Some(Error::GroupInactive)
        } else if now < self.round_start_ts + self.round_period {
            Some(Error::RoundNotReady)
        } else if self.members.len() == 0 {
            Some(Error::GroupNotFound)
        } else {
            None
        }
    }

    /// Adds `member` at the end of the rotation, unless the group is
    /// inactive, full, or already has them.
    pub fn join(&mut self, member: AccountId) -> (r: Result<(), Error>)
        ensures
            r is Err <==> old(self)@.join_error(member@) is Some,
            r matches Err(e) ==> old(self)@.join_error(member@) == Some(e) && final(self)@ == old(self)@,
            r is Ok ==> final(self)@ == old(self)@.joined(member@),
            r is Ok ==> final(self)@.members == old(self)@.members.push(member@),
            r is Ok ==> final(self)@.contributions_this_round == old(self)@.contributions_this_round,
            old(self)@.wf() ==> final(self)@.wf(),
    {
        match self.join_refusal(&member) {
            Some(e) => return Err(e),
            None => {},
        }
        let ghost old_members = self@.members;
        let ghost m = member@;
        self.members.push(member);
        proof {
            assert(self@.members =~= old_members.push(m));
            assert(self@.contributions_this_round == old(self)@.contributions_this_round);
            if old(self)@.wf() {
                assert forall|i: int|
                    0 <= i < self@.contributions_this_round.len() implies self@.members.contains(
                    #[trigger] self@.contributions_this_round[i],
                ) by {
                    let x = self@.contributions_this_round[i];
                    assert(old_members.contains(x));
                    let j = choose|j: int| 0 <= j < old_members.len() && old_members[j] == x;
                    assert(self@.members[j] == x);
                }
                assert(self@.members.no_duplicates()) by {
                    assert forall|a: int, b: int|
                        0 <= a < self@.members.len() && 0 <= b < self@.members.len() && a != b
                    implies self@.members[a] != self@.members[b] by {
                        if a == old_members.len() as int && self@.members[a] == self@.members[b] {
                            assert(old_members.contains(self@.members[b]));
                        }
                        if b == old_members.len() as int && self@.members[a] == self@.members[b] {
                            assert(old_members.contains(self@.members[a]));
                        }
                    }
                }
            }
        }
        Ok(())
    }

    /// Records `member`'s payment into the current round, unless the group
    /// is inactive, they are not a member, or they already paid this round.
    /// Gives back the referral cut and the pool part of the payment.
    pub fn record_contribution(&mut self, member: &AccountId) -> (r: Result<(i128, i128), Error>)
        requires
            old(self)@.contribution_amount >= 0,
            old(self)@.contribute_error(member@) is None ==> old(self)@.split_fits(),
        ensures
            r is Err <==> old(self)@.contribute_error(member@) is Some,
            r matches Err(e) ==> old(self)@.contribute_error(member@) == Some(e) && final(self)@
                == old(self)@,
            r matches Ok(split) ==> final(self)@ == old(self)@.contributed(member@) && split.0
                == old(self)@.cut() && split.1 == old(self)@.pool(),
            old(self)@.wf() ==> final(self)@.wf(),
    {
        match self.contribution_refusal(member) {
            Some(e) => return Err(e),
            None => {},
        }
        let split = referral_split(self.contribution_amount, self.referral_bps);
        let ghost old_c = self@.contributions_this_round;
        let ghost m = member@;
        self.contributions_this_round.push(member.duplicate());
        proof {
            assert(self@.contributions_this_round =~= old_c.push(m));
            if old(self)@.wf() {
                assert forall|i: int|
                    0 <= i < self@.contributions_this_round.len() implies self@.members.contains(
                    #[trigger] self@.contributions_this_round[i],
                ) by {
                    if i < old_c.len() {
                        assert(self@.contributions_this_round[i] == old_c[i]);
                    }
                }
                assert(self@.contributions_this_round.no_duplicates()) by {
                    let c = self@.contributions_this_round;
                    assert forall|a: int, b: int|
                        0 <= a < c.len() && 0 <= b < c.len() && a != b implies c[a] != c[b] by {
                        if a == old_c.len() as int && c[a] == c[b] {
                            assert(old_c[b] == c[b]);
                            assert(old_c.contains(m));
                        }
                        if b == old_c.len() as int && c[a] == c[b] {
                            assert(old_c[a] == c[a]);
                            assert(old_c.contains(m));
                        }
                        if a < old_c.len() && b < old_c.len() {
                            assert(old_c[a] == c[a] && old_c[b] == c[b]);
                        }
                    }
                }
            }
        }
        Ok(split)
    }

    /// Closes the current round at time `now`: its pool goes to the member
    /// whose turn it is, the round counter advances, and the group turns
    /// inactive once every member has had a turn.
    pub fn advance(&mut self, now: u64) -> (r: Result<Payout, Error>)
        requires
            old(self)@.active ==> old(self)@.deadline() <= u64::MAX,
            old(self)@.advance_error(now) is None ==> old(self)@.advance_fits(),
        ensures
            r is Err <==> old(self)@.advance_error(now) is Some,
            r matches Err(e) ==> old(self)@.advance_error(now) == Some(e) && final(self)@ == old(self)@,
            r matches Ok(p) ==> {
                &&& final(self)@ == old(self)@.advanced(now)
                &&& p.recipient@ == old(self)@.recipient()
                &&& p.token@ == old(self)@.token
                &&& p.amount == old(self)@.payout()
            },
            old(self)@.wf() ==> final(self)@.wf(),
    {
        match self.advance_refusal(now) {
            Some(e) => return Err(e),
            None => {},
        }
        let member_count = self.members.len();
        let index = (self.current_round as usize) % member_count;
        let recipient = self.members[index].duplicate();
        let (_cut, pool) = referral_split(self.contribution_amount, self.referral_bps);
        let n = self.contributions_this_round.len();
        let payout: i128 = pool * (n as i128);
        self.current_round = self.current_round + 1;
        self.round_start_ts = now;
        self.contributions_this_round = Vec::new();
        if self.current_round as usize >= member_count {
            self.active = false;
        }
        proof {
            assert(self@.contributions_this_round =~= Seq::<Seq<u8>>::empty());
            assert(accounts_view(self.members@)[index as int] == self.members@[index as int]@);
        }
        Ok(Payout { recipient, token: self.token.duplicate(), amount: payout })
    }
}

} // verus!
