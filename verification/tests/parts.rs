use stellar_groups::account::{contains_account, copy_accounts, AccountId};
use stellar_groups::error::Error;
use stellar_groups::group::{referral_split, Group};
use stellar_groups::referral::{
    claim_balance, credit_target, credited, referrer_to_record, ReferralBook, ReferrerRecords,
};

fn addr(name: &str) -> AccountId {
    AccountId::new(name.as_bytes().to_vec())
}

fn two_member_group() -> Group {
    let mut g = Group::create(4, addr("GALICE"), addr("CTOKEN"), 1000, 100, 2, 500, 50).unwrap();
    g.join(addr("GBOB")).unwrap();
    g
}

#[test]
fn account_equality_and_copy() {
    let a = addr("GALICE");
    assert!(a.same(&addr("GALICE")));
    assert!(!a.same(&addr("GALICF")));
    assert!(!a.same(&addr("GALIC")));
    let b = a.duplicate();
    assert_eq!(b.key, b"GALICE".to_vec());
    let list = vec![addr("GA"), addr("GB")];
    assert!(contains_account(&list, &addr("GB")));
    assert!(!contains_account(&list, &addr("GC")));
    assert_eq!(copy_accounts(&list), list);
}

#[test]
fn referral_split_values() {
    assert_eq!(referral_split(1000, 500), (50, 950));
    assert_eq!(referral_split(1999, 1000), (199, 1800));
    assert_eq!(referral_split(9, 1000), (0, 9));
    assert_eq!(referral_split(1000, 0), (0, 1000));
}

#[test]
fn group_create_checks_params() {
    assert_eq!(Group::create(0, addr("GA"), addr("CT"), 0, 1, 2, 0, 0).unwrap_err(), Error::InvalidParams);
    assert_eq!(Group::create(0, addr("GA"), addr("CT"), 1, 1, 1, 0, 0).unwrap_err(), Error::InvalidParams);
    assert_eq!(Group::create(0, addr("GA"), addr("CT"), 1, 1, 2, 1001, 0).unwrap_err(), Error::InvalidParams);
    let g = Group::create(9, addr("GA"), addr("CT"), 1, 1, 2, 1000, 77).unwrap();
    assert_eq!(g.id, 9);
    assert_eq!(g.members, vec![addr("GA")]);
    assert_eq!(g.round_start_ts, 77);
    assert!(g.active);
}

#[test]
fn group_join_and_membership() {
    let mut g = two_member_group();
    assert!(g.is_member(&addr("GALICE")));
    assert!(g.is_member(&addr("GBOB")));
    assert!(!g.is_member(&addr("GCAROL")));
    assert_eq!(g.join(addr("GCAROL")), Err(Error::GroupFull));
    assert_eq!(g.members.len(), 2);
}

#[test]
fn group_contribution_records_and_splits() {
    let mut g = two_member_group();
    assert_eq!(g.record_contribution(&addr("GBOB")), Ok((50, 950)));
    assert!(g.has_contributed(&addr("GBOB")));
    assert!(!g.has_contributed(&addr("GALICE")));
    assert_eq!(g.record_contribution(&addr("GBOB")), Err(Error::AlreadyContributed));
    assert_eq!(g.record_contribution(&addr("GCAROL")), Err(Error::NotMember));
}

#[test]
fn group_advance_pays_and_rotates() {
    let mut g = two_member_group();
    g.record_contribution(&addr("GALICE")).unwrap();
    g.record_contribution(&addr("GBOB")).unwrap();
    assert_eq!(g.advance(149).unwrap_err(), Error::RoundNotReady);
    let p = g.advance(150).unwrap();
    assert_eq!(p.recipient, addr("GALICE"));
    assert_eq!(p.token, addr("CTOKEN"));
    assert_eq!(p.amount, 1900);
    assert_eq!(g.current_round, 1);
    assert_eq!(g.round_start_ts, 150);
    assert!(g.contributions_this_round.is_empty());
    assert!(g.active);
    let p = g.advance(250).unwrap();
    assert_eq!(p.recipient, addr("GBOB"));
    assert_eq!(p.amount, 0);
    assert!(!g.active);
    assert_eq!(g.advance(1000).unwrap_err(), Error::GroupInactive);
}

#[test]
fn group_copy_is_equal() {
    let mut g = two_member_group();
    g.record_contribution(&addr("GBOB")).unwrap();
    let c = g.copy();
    assert_eq!(c.members, g.members);
    assert_eq!(c.contributions_this_round, g.contributions_this_round);
    assert_eq!(c.creator, g.creator);
    assert_eq!(c.token, g.token);
    assert_eq!((c.id, c.contribution_amount, c.round_period, c.max_members), (4, 1000, 100, 2));
    assert_eq!((c.current_round, c.round_start_ts, c.referral_bps, c.active), (0, 50, 500, true));
}

#[test]
fn referral_decisions() {
    assert_eq!(referrer_to_record(&addr("GB"), Some(addr("GA"))), Some(addr("GA")));
    assert_eq!(referrer_to_record(&addr("GB"), Some(addr("GB"))), None);
    assert_eq!(referrer_to_record(&addr("GB"), None), None);
    assert_eq!(credit_target(5, Some(addr("GA"))), Some(addr("GA")));
    assert_eq!(credit_target(0, Some(addr("GA"))), None);
    assert_eq!(credit_target(5, None), None);
    assert_eq!(credited(40, 2), 42);
    assert_eq!(claim_balance(42), (42, Some(0)));
    assert_eq!(claim_balance(0), (0, None));
}

#[test]
fn referral_book_credit_peek_take() {
    let mut book = ReferralBook::new();
    let (r, t, u) = (addr("GR"), addr("CT"), addr("CU"));
    assert_eq!(book.peek(&r, &t), 0);
    book.credit(&r, &t, 30);
    book.credit(&r, &t, 12);
    book.credit(&r, &u, 5);
    book.credit(&r, &t, 0);
    assert_eq!(book.peek(&r, &t), 42);
    assert_eq!(book.peek(&r, &u), 5);
    assert_eq!(book.take(&r, &t), 42);
    assert_eq!(book.peek(&r, &t), 0);
    assert_eq!(book.take(&r, &t), 0);
    assert_eq!(book.peek(&r, &u), 5);
}

#[test]
fn referrer_records_replace() {
    let mut recs = ReferrerRecords::new();
    assert_eq!(recs.referrer_of(1, &addr("GM")), None);
    recs.record(1, &addr("GM"), addr("GA"));
    assert_eq!(recs.referrer_of(1, &addr("GM")), Some(addr("GA")));
    assert_eq!(recs.referrer_of(2, &addr("GM")), None);
    recs.record(1, &addr("GM"), addr("GB"));
    assert_eq!(recs.referrer_of(1, &addr("GM")), Some(addr("GB")));
}
