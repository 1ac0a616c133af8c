use stellar_groups::account::AccountId;
use stellar_groups::error::Error;
use stellar_groups::GroupsContract;

fn addr(name: &str) -> AccountId {
    AccountId::new(name.as_bytes().to_vec())
}

fn setup() -> (GroupsContract, AccountId) {
    let mut client = GroupsContract::new();
    let admin = addr("GADMIN");
    client.initialize(admin).unwrap();
    let token = addr("CTOKEN");
    (client, token)
}

#[test]
fn full_rosca_cycle_with_referral() {
    let (mut client, token) = setup();
    let mut now: u64 = 0;

    let alice = addr("GALICE"); // creator
    let bob = addr("GBOB"); // referred by alice
    let carol = addr("GCAROL"); // no referrer

    let contribution: i128 = 1000;
    let round_period: u64 = 86_400; // 1 day
    let group_id = client
        .create_group(alice.clone(), token.clone(), contribution, round_period, 3u32, 500u32, now)
        .unwrap();

    client.join_group(group_id, bob.clone(), Some(alice.clone())).unwrap();
    client.join_group(group_id, carol.clone(), None).unwrap();

    // Round 0: everyone contributes.
    client.contribute(group_id, alice.clone()).unwrap();
    client.contribute(group_id, bob.clone()).unwrap();
    client.contribute(group_id, carol.clone()).unwrap();

    // Referral cut: 5% of 1000 = 50, credited to alice for bob's contribution.
    assert_eq!(client.referral_balance(alice.clone(), token.clone()), 50);

    // Round not ready yet.
    let too_early = client.advance_round(group_id, now);
    assert!(too_early.is_err());

    now += round_period;

    let pool_per_member: i128 = contribution - 50; // 950
    let expected_payout = pool_per_member * 3;

    let payout = client.advance_round(group_id, now).unwrap();
    assert_eq!(payout.recipient, alice); // round 0 -> first joiner

    // What the contract transfers to alice.
    assert_eq!(payout.amount, expected_payout);
    assert_eq!(payout.token, token);

    // Claim the referral reward separately from the payout pool.
    let claimed = client.claim_referral(alice.clone(), token.clone()).unwrap();
    assert_eq!(claimed, 50);
    assert_eq!(client.referral_balance(alice.clone(), token.clone()), 0);

    let group = client.get_group(group_id).unwrap();
    assert_eq!(group.current_round, 1);
    assert!(group.active);
}

#[test]
fn cannot_double_contribute_in_same_round() {
    let (mut client, token) = setup();
    let alice = addr("GALICE");

    let group_id = client.create_group(alice.clone(), token, 1000i128, 86_400u64, 2u32, 0u32, 0).unwrap();
    let bob = addr("GBOB");
    client.join_group(group_id, bob, None).unwrap();

    client.contribute(group_id, alice.clone()).unwrap();
    let result = client.contribute(group_id, alice);
    assert!(result.is_err());
}

#[test]
fn group_deactivates_after_full_cycle() {
    let (mut client, token) = setup();
    let alice = addr("GALICE");
    let bob = addr("GBOB");
    let mut now: u64 = 0;

    let round_period: u64 = 1000;
    let group_id = client.create_group(alice.clone(), token, 1000i128, round_period, 2u32, 0u32, now).unwrap();
    client.join_group(group_id, bob.clone(), None).unwrap();

    for _ in 0..2 {
        client.contribute(group_id, alice.clone()).unwrap();
        client.contribute(group_id, bob.clone()).unwrap();
        now += round_period;
        client.advance_round(group_id, now).unwrap();
    }

    let group = client.get_group(group_id).unwrap();
    assert!(!group.active);
    assert_eq!(group.current_round, 2);
}

#[test]
fn initialize_twice_is_refused() {
    let (mut client, _token) = setup();
    assert_eq!(client.initialize(addr("GOTHER")), Err(Error::AlreadyInitialized));
}

#[test]
fn create_group_rejects_invalid_params() {
    let (mut client, token) = setup();
    let alice = addr("GALICE");
    assert_eq!(client.create_group(alice.clone(), token.clone(), 0, 10, 3, 0, 0), Err(Error::InvalidParams));
    assert_eq!(client.create_group(alice.clone(), token.clone(), -5, 10, 3, 0, 0), Err(Error::InvalidParams));
    assert_eq!(client.create_group(alice.clone(), token.clone(), 100, 10, 1, 0, 0), Err(Error::InvalidParams));
    assert_eq!(client.create_group(alice.clone(), token.clone(), 100, 10, 3, 1001, 0), Err(Error::InvalidParams));
    assert_eq!(client.group_count(), 0);
    // The limits themselves are accepted.
    assert_eq!(client.create_group(alice, token, 1, 10, 2, 1000, 0), Ok(0));
    assert_eq!(client.group_count(), 1);
}

#[test]
fn group_ids_are_sequential() {
    let (mut client, token) = setup();
    let alice = addr("GALICE");
    assert_eq!(client.create_group(alice.clone(), token.clone(), 10, 1, 2, 0, 5), Ok(0));
    assert_eq!(client.create_group(alice.clone(), token.clone(), 20, 1, 2, 0, 5), Ok(1));
    assert_eq!(client.create_group(alice, token, 30, 1, 2, 0, 5), Ok(2));
    assert_eq!(client.group_count(), 3);
    assert_eq!(client.get_group(1).unwrap().contribution_amount, 20);
    assert_eq!(client.get_group(2).unwrap().id, 2);
}

#[test]
fn new_group_state() {
    let (mut client, token) = setup();
    let alice = addr("GALICE");
    let id = client.create_group(alice.clone(), token.clone(), 700, 60, 4, 250, 1234).unwrap();
    let g = client.get_group(id).unwrap();
    assert_eq!(g.id, id);
    assert_eq!(g.creator, alice);
    assert_eq!(g.token, token);
    assert_eq!(g.contribution_amount, 700);
    assert_eq!(g.round_period, 60);
    assert_eq!(g.max_members, 4);
    assert_eq!(g.members, vec![alice]);
    assert_eq!(g.current_round, 0);
    assert_eq!(g.round_start_ts, 1234);
    assert!(g.contributions_this_round.is_empty());
    assert_eq!(g.referral_bps, 250);
    assert!(g.active);
}

#[test]
fn unknown_group_is_not_found() {
    let (mut client, _token) = setup();
    let alice = addr("GALICE");
    assert_eq!(client.join_group(7, alice.clone(), None).unwrap_err(), Error::GroupNotFound);
    assert_eq!(client.contribute(7, alice).unwrap_err(), Error::GroupNotFound);
    assert_eq!(client.advance_round(7, 100).unwrap_err(), Error::GroupNotFound);
    assert_eq!(client.get_group(7).unwrap_err(), Error::GroupNotFound);
}

#[test]
fn join_errors() {
    let (mut client, token) = setup();
    let alice = addr("GALICE");
    let bob = addr("GBOB");
    let id = client.create_group(alice.clone(), token, 100, 10, 2, 0, 0).unwrap();
    assert_eq!(client.join_group(id, alice.clone(), None), Err(Error::AlreadyMember));
    client.join_group(id, bob.clone(), None).unwrap();
    assert_eq!(client.join_group(id, addr("GCAROL"), None), Err(Error::GroupFull));
    assert_eq!(client.get_group(id).unwrap().members, vec![alice.clone(), bob.clone()]);
    // Close both rounds: the group turns inactive and refuses joins.
    client.advance_round(id, 10).unwrap();
    client.advance_round(id, 20).unwrap();
    assert_eq!(client.join_group(id, addr("GDAVE"), None), Err(Error::GroupInactive));
}

#[test]
fn contribute_errors() {
    let (mut client, token) = setup();
    let alice = addr("GALICE");
    let id = client.create_group(alice.clone(), token, 100, 10, 2, 0, 0).unwrap();
    assert_eq!(client.contribute(id, addr("GSTRANGER")).unwrap_err(), Error::NotMember);
    client.contribute(id, alice.clone()).unwrap();
    assert_eq!(client.contribute(id, alice.clone()).unwrap_err(), Error::AlreadyContributed);
    // A new round accepts the member again.
    client.advance_round(id, 10).unwrap();
    assert_eq!(client.get_group(id).unwrap().active, false);
    assert_eq!(client.contribute(id, alice).unwrap_err(), Error::GroupInactive);
}

#[test]
fn contribution_split_with_and_without_referrer() {
    let (mut client, token) = setup();
    let alice = addr("GALICE");
    let bob = addr("GBOB");
    let carol = addr("GCAROL");
    let id = client.create_group(alice.clone(), token.clone(), 1999, 10, 3, 1000, 0).unwrap();
    client.join_group(id, bob.clone(), Some(alice.clone())).unwrap();
    client.join_group(id, carol.clone(), None).unwrap();

    let c = client.contribute(id, bob.clone()).unwrap();
    // 10% of 1999, rounded down.
    assert_eq!(c.referral_cut, 199);
    assert_eq!(c.pool_amount, 1800);
    assert_eq!(c.token, token);
    assert_eq!(c.referrer, Some(alice.clone()));

    // Without a referrer the cut is still split off, but credited to no one.
    let c = client.contribute(id, carol.clone()).unwrap();
    assert_eq!(c.referral_cut, 199);
    assert_eq!(c.pool_amount, 1800);
    assert_eq!(c.referrer, None);
    assert_eq!(client.referral_balance(carol, token.clone()), 0);
    assert_eq!(client.referral_balance(alice.clone(), token.clone()), 199);

    // The round pays one pool part per contribution made.
    let p = client.advance_round(id, 10).unwrap();
    assert_eq!(p.recipient, alice);
    assert_eq!(p.amount, 3600);
}

#[test]
fn zero_bps_credits_nothing() {
    let (mut client, token) = setup();
    let alice = addr("GALICE");
    let bob = addr("GBOB");
    let id = client.create_group(alice.clone(), token.clone(), 500, 10, 2, 0, 0).unwrap();
    client.join_group(id, bob.clone(), Some(alice.clone())).unwrap();
    let c = client.contribute(id, bob).unwrap();
    assert_eq!(c.referral_cut, 0);
    assert_eq!(c.pool_amount, 500);
    assert_eq!(c.referrer, None);
    assert_eq!(client.referral_balance(alice, token), 0);
}

#[test]
fn self_referral_is_not_recorded() {
    let (mut client, token) = setup();
    let alice = addr("GALICE");
    let bob = addr("GBOB");
    let id = client.create_group(alice.clone(), token.clone(), 1000, 10, 2, 1000, 0).unwrap();
    client.join_group(id, bob.clone(), Some(bob.clone())).unwrap();
    let c = client.contribute(id, bob.clone()).unwrap();
    assert_eq!(c.referrer, None);
    assert_eq!(client.referral_balance(bob, token), 0);
}

#[test]
fn referral_balances_accumulate_across_groups_and_claim_once() {
    let (mut client, token) = setup();
    let other_token = addr("COTHER");
    let alice = addr("GALICE");
    let bob = addr("GBOB");
    let g1 = client.create_group(alice.clone(), token.clone(), 1000, 10, 2, 100, 0).unwrap();
    let g2 = client.create_group(alice.clone(), token.clone(), 3000, 10, 2, 100, 0).unwrap();
    let g3 = client.create_group(alice.clone(), other_token.clone(), 1000, 10, 2, 100, 0).unwrap();
    client.join_group(g1, bob.clone(), Some(alice.clone())).unwrap();
    client.join_group(g2, bob.clone(), Some(alice.clone())).unwrap();
    client.join_group(g3, bob.clone(), Some(alice.clone())).unwrap();
    client.contribute(g1, bob.clone()).unwrap();
    client.contribute(g2, bob.clone()).unwrap();
    client.contribute(g3, bob.clone()).unwrap();
    assert_eq!(client.referral_balance(alice.clone(), token.clone()), 10 + 30);
    assert_eq!(client.referral_balance(alice.clone(), other_token.clone()), 10);
    assert_eq!(client.claim_referral(alice.clone(), token.clone()), Ok(40));
    assert_eq!(client.claim_referral(alice.clone(), token.clone()), Ok(0));
    assert_eq!(client.referral_balance(alice.clone(), other_token.clone()), 10);
    // Nobody else has a balance.
    assert_eq!(client.claim_referral(bob, token), Ok(0));
}

#[test]
fn rotation_follows_join_order_even_after_late_join() {
    let (mut client, token) = setup();
    let alice = addr("GALICE");
    let bob = addr("GBOB");
    let carol = addr("GCAROL");
    let id = client.create_group(alice.clone(), token, 100, 10, 3, 0, 0).unwrap();
    client.join_group(id, bob.clone(), None).unwrap();
    assert_eq!(client.advance_round(id, 10).unwrap().recipient, alice);
    // Carol joins after the first round; she is paid last.
    client.join_group(id, carol.clone(), None).unwrap();
    assert_eq!(client.advance_round(id, 20).unwrap().recipient, bob);
    assert!(client.get_group(id).unwrap().active);
    let p = client.advance_round(id, 30).unwrap();
    assert_eq!(p.recipient, carol);
    assert_eq!(p.amount, 0);
    let g = client.get_group(id).unwrap();
    assert!(!g.active);
    assert_eq!(g.current_round, 3);
    assert_eq!(client.advance_round(id, 40).unwrap_err(), Error::GroupInactive);
}

#[test]
fn round_readiness_uses_period_from_round_start() {
    let (mut client, token) = setup();
    let alice = addr("GALICE");
    let id = client.create_group(alice.clone(), token, 100, 50, 3, 0, 1000).unwrap();
    client.join_group(id, addr("GBOB"), None).unwrap();
    assert_eq!(client.advance_round(id, 1049).unwrap_err(), Error::RoundNotReady);
    client.advance_round(id, 1060).unwrap();
    let g = client.get_group(id).unwrap();
    assert_eq!(g.round_start_ts, 1060);
    assert_eq!(client.advance_round(id, 1109).unwrap_err(), Error::RoundNotReady);
    assert!(client.advance_round(id, 1110).is_ok());
}

#[test]
fn error_codes() {
    assert_eq!(Error::AlreadyInitialized.code(), 1);
    assert_eq!(Error::GroupNotFound.code(), 2);
    assert_eq!(Error::GroupFull.code(), 3);
    assert_eq!(Error::AlreadyMember.code(), 4);
    assert_eq!(Error::NotMember.code(), 5);
    assert_eq!(Error::AlreadyContributed.code(), 6);
    assert_eq!(Error::RoundNotReady.code(), 7);
    assert_eq!(Error::GroupInactive.code(), 8);
    assert_eq!(Error::InvalidParams.code(), 9);
}

#[test]
fn group_count_defaults_and_resets_on_initialize() {
    let mut client = GroupsContract::new();
    assert_eq!(client.group_count(), 0);
    let alice = addr("GALICE");
    let token = addr("CTOKEN");
    // Groups can be created before setup; setup then resets the counter.
    assert_eq!(client.create_group(alice.clone(), token.clone(), 10, 1, 2, 0, 0), Ok(0));
    assert_eq!(client.group_count(), 1);
    client.initialize(addr("GADMIN")).unwrap();
    assert_eq!(client.group_count(), 0);
    // The next group takes id 0 again and replaces the stored one.
    assert_eq!(client.create_group(alice, token, 77, 1, 2, 0, 0), Ok(0));
    assert_eq!(client.get_group(0).unwrap().contribution_amount, 77);
}
