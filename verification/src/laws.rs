//! Properties of the contract that span several calls, proved over the
//! state transitions that the entry points' contracts are stated in.
use vstd::prelude::*;

use crate::error::Error;
use crate::group::{lemma_split_bounds, params_valid, GroupState};
use crate::referral::balance_in;
use crate::ContractState;

verus! {

/// The group after its rounds were closed at the times `nows`, in order.
pub open spec fn after_rounds(g: GroupState, nows: Seq<u64>) -> GroupState
    decreases nows.len(),
{
    if nows.len() == 0 {
        g
    } else {
        after_rounds(g.advanced(nows[0]), nows.drop_first())
    }
}

/// Who received each pool when the rounds were closed at the times `nows`.
pub open spec fn paid_in_turn(g: GroupState, nows: Seq<u64>) -> Seq<Seq<u8>>
    decreases nows.len(),
{
    if nows.len() == 0 {
        Seq::empty()
    } else {
        seq![g.recipient()] + paid_in_turn(g.advanced(nows[0]), nows.drop_first())
    }
}

/// Joining, contributing and closing a round keep a group well formed.
pub proof fn law_group_invariant(g: GroupState, member: Seq<u8>, now: u64)
    requires
        g.wf(),
    ensures
        g.join_error(member) is None ==> g.joined(member).wf(),
        g.contribute_error(member) is None ==> g.contributed(member).wf(),
        g.active ==> g.advanced(now).wf(),
{
    if g.join_error(member) is None {
        let h = g.joined(member);
        assert forall|i: int|
            0 <= i < h.contributions_this_round.len() implies h.members.contains(
            #[trigger] h.contributions_this_round[i],
        ) by {
            let x = h.contributions_this_round[i];
            assert(g.members.contains(x));
            let j = choose|j: int| 0 <= j < g.members.len() && g.members[j] == x;
            assert(h.members[j] == x);
        }
        assert forall|a: int, b: int|
            0 <= a < h.members.len() && 0 <= b < h.members.len() && a != b implies h.members[a]
            != h.members[b] by {
            if a == g.members.len() as int && h.members[a] == h.members[b] {
                assert(g.members[b] == member);
            }
            if b == g.members.len() as int && h.members[a] == h.members[b] {
                assert(g.members[a] == member);
            }
        }
    }
    if g.contribute_error(member) is None {
        let h = g.contributed(member);
        let c = g.contributions_this_round;
        assert forall|i: int|
            0 <= i < h.contributions_this_round.len() implies h.members.contains(
            #[trigger] h.contributions_this_round[i],
        ) by {
            if i < c.len() {
                assert(h.contributions_this_round[i] == c[i]);
            }
        }
        assert forall|a: int, b: int|
            0 <= a < h.contributions_this_round.len() && 0 <= b < h.contributions_this_round.len()
                && a != b implies h.contributions_this_round[a] != h.contributions_this_round[b] by {
            if a == c.len() as int && h.contributions_this_round[a] == h.contributions_this_round[b] {
                assert(c[b] == member);
            }
            if b == c.len() as int && h.contributions_this_round[a] == h.contributions_this_round[b] {
                assert(c[a] == member);
            }
        }
    }
    if g.active {
        assert(g.advanced(now).contributions_this_round.len() == 0);
    }
}

/// While a group is active, its pool goes to the member whose turn it is in
/// join order: the `current_round`-th member, with no wrap-around.
pub proof fn law_recipient_in_join_order(g: GroupState)
    requires
        g.wf(),
        g.active,
    ensures
        g.recipient() == g.members[g.current_round as int],
{
    vstd::arithmetic::div_mod::lemma_small_mod(g.current_round as nat, g.members.len());
}

/// Closing the remaining rounds of an active group, with no one joining in
/// between, pays each remaining member exactly once, in join order; the
/// group stays active until the last of them is paid and then turns inactive.
pub proof fn law_full_cycle(g: GroupState, nows: Seq<u64>)
    requires
        g.wf(),
        g.active,
        nows.len() == g.members.len() - g.current_round,
    ensures
        paid_in_turn(g, nows) == g.members.subrange(g.current_round as int, g.members.len() as int),
        forall|k: int| 0 <= k < nows.len() ==> #[trigger] after_rounds(g, nows.take(k)).active,
        !after_rounds(g, nows).active,
        after_rounds(g, nows).current_round == g.members.len(),
        after_rounds(g, nows).members == g.members,
    decreases nows.len(),
{
    law_recipient_in_join_order(g);
    law_group_invariant(g, Seq::empty(), nows[0]);
    let h = g.advanced(nows[0]);
    let rest = nows.drop_first();
    if h.active {
        law_full_cycle(h, rest);
        assert(g.members.subrange(g.current_round as int, g.members.len() as int) =~= seq![
            g.recipient(),
        ] + h.members.subrange(h.current_round as int, h.members.len() as int));
        assert forall|k: int| 0 <= k < nows.len() implies #[trigger] after_rounds(
            g,
            nows.take(k),
        ).active by {
            if k > 0 {
                assert(nows.take(k).drop_first() =~= rest.take(k - 1));
                assert(after_rounds(g, nows.take(k)) == after_rounds(h, rest.take(k - 1)));
            } else {
                assert(nows.take(0) =~= Seq::<u64>::empty());
            }
        }
    } else {
        assert(rest.len() == 0);
        assert(after_rounds(h, rest) == h);
        assert(after_rounds(g, nows) == h);
        assert(g.members.subrange(g.current_round as int, g.members.len() as int) =~= seq![
            g.recipient(),
        ]);
        assert(paid_in_turn(h, rest) =~= Seq::<Seq<u8>>::empty());
        assert forall|k: int| 0 <= k < nows.len() implies #[trigger] after_rounds(
            g,
            nows.take(k),
        ).active by {
            assert(k == 0);
            assert(nows.take(0) =~= Seq::<u64>::empty());
        }
    }
}

/// A member who has paid into a round is refused a second payment into the
/// same round.
pub proof fn law_no_double_contribution(s: ContractState, group_id: u64, member: Seq<u8>)
    requires
        s.contribute_error(group_id, member) is None,
    ensures
        s.contributed(group_id, member).contribute_error(group_id, member) == Some(
            Error::AlreadyContributed,
        ),
{
    let h = s.contributed(group_id, member).groups[group_id];
    assert(h.contributions_this_round.last() == member);
}

/// A contribution splits exactly into its pool part and its referral cut;
/// the cut is at most a tenth of it and the pool part is positive.
pub proof fn law_contribution_split(s: ContractState, group_id: u64, member: Seq<u8>)
    requires
        s.wf(),
        s.groups.contains_key(group_id),
    ensures
        s.contribution(group_id, member).pool_amount + s.contribution(group_id, member).referral_cut
            == s.groups[group_id].contribution_amount,
        0 <= s.contribution(group_id, member).referral_cut <= s.groups[group_id].contribution_amount
            / 10,
        s.contribution(group_id, member).pool_amount > 0,
{
    let g = s.groups[group_id];
    lemma_split_bounds(g.contribution_amount as int, g.referral_bps as int);
}

/// Each contribution adds one pool part to what the round will pay out.
pub proof fn law_contribution_adds_to_payout(s: ContractState, group_id: u64, member: Seq<u8>)
    requires
        s.contribute_error(group_id, member) is None,
    ensures
        s.contributed(group_id, member).groups[group_id].payout() == s.groups[group_id].payout()
            + s.contribution(group_id, member).pool_amount,
{
    let g = s.groups[group_id];
    let n = g.contributions_this_round.len() as int;
    assert(g.pool() * (n + 1) == g.pool() * n + g.pool()) by (nonlinear_arith);
}

/// A round starts with nothing to pay out, and closing rounds leaves the
/// referral records and balances as they are: referral rewards are claimable
/// independently of the payout cycle.
pub proof fn law_rounds_leave_referrals_alone(s: ContractState, group_id: u64, now: u64)
    ensures
        s.advanced(group_id, now).groups[group_id].payout() == 0,
        s.advanced(group_id, now).referrers == s.referrers,
        s.advanced(group_id, now).balances == s.balances,
{
    assert(0 * s.groups[group_id].pool() == 0) by (nonlinear_arith);
}

/// The referral cut of a referred member's contribution is added to their
/// referrer's balance in the group's token; a contribution by a member with
/// no recorded referrer credits no one.
pub proof fn law_referral_credited(s: ContractState, group_id: u64, member: Seq<u8>)
    requires
        s.contribute_error(group_id, member) is None,
        s.contribution_fits(group_id, member),
    ensures
        s.credited_referrer(group_id, member) matches Some(r) ==> s.contributed(
            group_id,
            member,
        ).balance(r, s.groups[group_id].token) == s.balance(r, s.groups[group_id].token)
            + s.groups[group_id].cut(),
        !s.referrers.contains_key((group_id, member)) ==> s.contributed(group_id, member).balances
            == s.balances,
{
}

/// A claim gives back the whole balance and leaves nothing to claim: a
/// second claim gives back zero.
pub proof fn law_claim_empties(s: ContractState, referrer: Seq<u8>, token: Seq<u8>)
    requires
        s.wf(),
    ensures
        s.balance(referrer, token) >= 0,
        s.claimed(referrer, token).balance(referrer, token) == 0,
        s.claimed(referrer, token).claimed(referrer, token) == s.claimed(referrer, token),
{
    if s.balances.contains_key((referrer, token)) {
        assert(s.balances[(referrer, token)] >= 0);
    }
}

/// Reading a balance gives back what was last written there.
pub proof fn law_balance_read_after_write(
    m: Map<(Seq<u8>, Seq<u8>), i128>,
    referrer: Seq<u8>,
    token: Seq<u8>,
    other_referrer: Seq<u8>,
    other_token: Seq<u8>,
    amount: i128,
)
    requires
        (other_referrer, other_token) != (referrer, token),
    ensures
        balance_in(m.insert((referrer, token), amount), referrer, token) == amount,
        balance_in(m.insert((referrer, token), amount), other_referrer, other_token) == balance_in(
            m,
            other_referrer,
            other_token,
        ),
{
}

/// A member cannot refer themself: such a referrer is not recorded.
pub proof fn law_self_referral_ignored(s: ContractState, group_id: u64, member: Seq<u8>)
    ensures
        s.joined(group_id, member, Some(member)).referrers == s.referrers,
{
}

/// Setup happens once: a second `initialize` is refused.
pub proof fn law_initialize_once(s: ContractState, admin: Seq<u8>)
    ensures
        s.initialized(admin).initialize_error() == Some(Error::AlreadyInitialized),
{
}

/// Successive groups get successive ids, and each is stored under its id.
pub proof fn law_sequential_ids(
    s: ContractState,
    creator: Seq<u8>,
    token: Seq<u8>,
    contribution_amount: i128,
    round_period: u64,
    max_members: u32,
    referral_bps: u32,
    now: u64,
)
    requires
        s.group_count < u64::MAX,
    ensures
        ({
            let t = s.created(
                creator,
                token,
                contribution_amount,
                round_period,
                max_members,
                referral_bps,
                now,
            );
            &&& t.group_count == s.group_count + 1
            &&& t.groups.contains_key(s.group_count)
            &&& t.groups[s.group_count].id == s.group_count
            &&& t.groups[s.group_count].members == seq![creator]
        }),
{
}

/// A round can be closed at any time from its deadline on, however late:
/// an active group refuses with `RoundNotReady` exactly before
/// `round_start_ts + round_period`, and at or after it closes the round,
/// paying the member whose turn it is and starting the next round at `now`.
pub proof fn law_round_closes_from_deadline_on(s: ContractState, group_id: u64, now: u64)
    requires
        s.wf(),
        s.groups.contains_key(group_id),
        s.groups[group_id].active,
    ensures
        s.advance_error(group_id, now) == Some(Error::RoundNotReady) <==> now
            < s.groups[group_id].round_start_ts + s.groups[group_id].round_period,
        now >= s.groups[group_id].round_start_ts + s.groups[group_id].round_period ==> {
            &&& s.advance_error(group_id, now) is None
            &&& s.payout(group_id).recipient == s.groups[group_id].members[s.groups[group_id].current_round as int]
            &&& s.advanced(group_id, now).groups[group_id].current_round == s.groups[group_id].current_round + 1
            &&& s.advanced(group_id, now).groups[group_id].round_start_ts == now
        },
{
    law_recipient_in_join_order(s.groups[group_id]);
}

/// `create_group` accepts exactly a positive contribution, at least two
/// members (with no upper limit) and a referral cut of at most 1000 basis
/// points; an accepted group allows `max_members` members.
pub proof fn law_create_accepts_exactly(
    s: ContractState,
    creator: Seq<u8>,
    token: Seq<u8>,
    contribution_amount: i128,
    round_period: u64,
    max_members: u32,
    referral_bps: u32,
    now: u64,
)
    ensures
        params_valid(contribution_amount, max_members, referral_bps) <==> (contribution_amount > 0
            && max_members >= 2 && referral_bps <= 1000),
        s.created(creator, token, contribution_amount, round_period, max_members, referral_bps, now).groups[s.group_count].max_members
            == max_members,
        s.created(creator, token, contribution_amount, round_period, max_members, referral_bps, now).groups[s.group_count].contribution_amount
            == contribution_amount,
{
}

/// A join only appends: the new member comes after every earlier member, so
/// rotation order is join order, and nothing else of the group changes (in
/// particular who has already paid into the current round).
pub proof fn law_join_appends_only(s: ContractState, group_id: u64, member: Seq<u8>, referrer: Option<Seq<u8>>)
    requires
        s.join_error(group_id, member) is None,
    ensures
        ({
            let g = s.groups[group_id];
            let h = s.joined(group_id, member, referrer).groups[group_id];
            &&& h.members.len() == g.members.len() + 1
            &&& forall|i: int| 0 <= i < g.members.len() ==> h.members[i] == #[trigger] g.members[i]
            &&& h.members[g.members.len() as int] == member
            &&& h.contributions_this_round == g.contributions_this_round
            &&& h.id == g.id
            &&& h.creator == g.creator
            &&& h.token == g.token
            &&& h.contribution_amount == g.contribution_amount
            &&& h.round_period == g.round_period
            &&& h.max_members == g.max_members
            &&& h.current_round == g.current_round
            &&& h.round_start_ts == g.round_start_ts
            &&& h.referral_bps == g.referral_bps
            &&& h.active == g.active
        }),
        forall|id: u64| id != group_id ==> s.joined(group_id, member, referrer).groups.contains_key(id)
            == #[trigger] s.groups.contains_key(id),
        s.joined(group_id, member, referrer).balances == s.balances,
{
}

/// Whoever a member named as referrer when joining (anyone but themself,
/// member of the group or not) is credited the referral cut of each of that
/// member's contributions, when the cut is positive.
pub proof fn law_named_referrer_is_credited(
    s: ContractState,
    group_id: u64,
    member: Seq<u8>,
    referrer: Seq<u8>,
)
    requires
        s.join_error(group_id, member) is None,
        referrer != member,
        s.groups[group_id].cut() > 0,
    ensures
        s.joined(group_id, member, Some(referrer)).credited_referrer(group_id, member) == Some(
            referrer,
        ),
        s.joined(group_id, member, Some(referrer)).contribution(group_id, member).referrer == Some(
            referrer,
        ),
{
}

/// A member with a recorded referrer, contributing when the cut is
/// positive, credits that recorded referrer (whoever it is) with the cut.
pub proof fn law_recorded_referrer_is_credited(s: ContractState, group_id: u64, member: Seq<u8>)
    requires
        s.contribute_error(group_id, member) is None,
        s.contribution_fits(group_id, member),
        s.referrers.contains_key((group_id, member)),
        s.groups[group_id].contribution_amount * s.groups[group_id].referral_bps >= 10000,
    ensures
        s.credited_referrer(group_id, member) == Some(s.referrers[(group_id, member)]),
        s.contributed(group_id, member).balance(
            s.referrers[(group_id, member)],
            s.groups[group_id].token,
        ) == s.balance(s.referrers[(group_id, member)], s.groups[group_id].token) + s.groups[group_id].contribution_amount
            * s.groups[group_id].referral_bps / 10000,
{
    let g = s.groups[group_id];
    assert(g.contribution_amount * g.referral_bps / 10000 >= 1) by (nonlinear_arith)
        requires
            g.contribution_amount * g.referral_bps >= 10000,
    ;
}

} // verus!
