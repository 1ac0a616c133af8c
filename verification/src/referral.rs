//! Claimable referral balances, one per (referrer, token).
use vstd::prelude::*;

use crate::account::{opt_view, AccountId};
use crate::keyed::{entries_map, keys_unique, lemma_empty, lemma_entry, lemma_no_entry, lemma_push, lemma_update};

verus! {

/// The key of a referral balance: (referrer, token), each by its key bytes.
pub type BalanceKey = (Seq<u8>, Seq<u8>);

/// A referrer's balance in the map `m`; absent means zero.
pub open spec fn balance_in(m: Map<BalanceKey, i128>, referrer: Seq<u8>, token: Seq<u8>) -> i128 {
    if m.contains_key((referrer, token)) {
        m[(referrer, token)]
    } else {
        0
    }
}

/// The referrer recorded for a new member: the one named, unless it is the
/// member themself.
pub open spec fn recorded_referrer(member: Seq<u8>, referrer: Option<Seq<u8>>) -> Option<Seq<u8>> {
    match referrer {
        Some(r) => if r != member {
            Some(r)
        } else {
            None
        },
        None => None,
    }
}

/// Who is credited the referral cut of a contribution: the member's
/// recorded referrer, when the cut is positive.
pub open spec fn credit_target_of(cut: int, recorded: Option<Seq<u8>>) -> Option<Seq<u8>> {
    if cut > 0 {
        recorded
    } else {
        None
    }
}

/// The referrer to record when `member` joins naming `referrer`: none for a
/// self-referral.
pub fn referrer_to_record(member: &AccountId, referrer: Option<AccountId>) -> (r: Option<AccountId>)
    ensures
        opt_view(r) == recorded_referrer(member@, opt_view(referrer)),
{
    match referrer {
        Some(a) => if a.same(member) {
            None
        } else {
            Some(a)
        },
        None => None,
    }
}

/// Who is credited a contribution's referral `cut`, given the member's
/// recorded referrer.
pub fn credit_target(cut: i128, recorded: Option<AccountId>) -> (r: Option<AccountId>)
    ensures
        opt_view(r) == credit_target_of(cut as int, opt_view(recorded)),
{
    if cut > 0 {
        recorded
    } else {
        None
    }
}

/// A balance after `amount` is credited to it.
pub fn credited(balance: i128, amount: i128) -> (r: i128)
    requires
        i128::MIN <= balance + amount <= i128::MAX,
    ensures
        r == balance + amount,
{
    balance + amount
}

/// What a claim of `balance` pays, and the value then stored: a positive
/// balance is paid whole and reset to zero; any other is paid as it is and
/// nothing is written.
pub fn claim_balance(balance: i128) -> (r: (i128, Option<i128>))
    ensures
        r.0 == balance,
        r.1 == (if balance > 0 {
            Some(0i128)
        } else {
            None
        }),
{
    if balance > 0 {
        (balance, Some(0))
    } else {
        (balance, None)
    }
}

/// One stored balance.
#[derive(Debug)]
pub struct BalanceEntry {
    pub referrer: AccountId,
    pub token: AccountId,
    pub amount: i128,
}

/// The claimable referral balances, per referrer and token.
#[derive(Debug)]
pub struct ReferralBook {
    entries: Vec<BalanceEntry>,
}

impl View for ReferralBook {
    type V = Map<BalanceKey, i128>;

    closed spec fn view(&self) -> Map<BalanceKey, i128> {
        entries_map(self.entry_seq())
    }
}

impl ReferralBook {
    closed spec fn entry_seq(self) -> Seq<(BalanceKey, i128)> {
        self.entries@.map_values(|e: BalanceEntry| ((e.referrer@, e.token@), e.amount))
    }

    /// Each (referrer, token) is stored at most once.
    pub closed spec fn wf(self) -> bool {
        keys_unique(self.entry_seq())
    }

    /// A book with no balances.
    pub fn new() -> (r: ReferralBook)
        ensures
            r.wf(),
            r@ == Map::<BalanceKey, i128>::empty(),
    {
        let r = ReferralBook { entries: Vec::new() };
        proof {
            lemma_empty::<BalanceKey, i128>();
            assert(r.entry_seq() =~= Seq::<(BalanceKey, i128)>::empty());
        }
        r
    }

    /// The position of the entry for (referrer, token), if there is one.
    fn find(&self, referrer: &AccountId, token: &AccountId) -> (r: Option<usize>)
        requires
            self.wf(),
        ensures
            r matches Some(i) ==> i < self.entries@.len() && self.entry_seq()[i as int].0 == (
                referrer@,
                token@,
            ),
            r is None ==> !self@.contains_key((referrer@, token@)),
    {
        let mut i: usize = 0;
        while i < self.entries.len()
            invariant
                i <= self.entries@.len(),
                forall|j: int|
                    0 <= j < i ==> #[trigger] self.entry_seq()[j].0 != (referrer@, token@),
            decreases self.entries.len() - i,
        {
            let e = &self.entries[i];
            if e.referrer.same(referrer) && e.token.same(token) {
                return Some(i);
            }
            i = i + 1;
        }
        proof {
            lemma_no_entry(self.entry_seq(), (referrer@, token@));
        }
        None
    }

    /// Sets the balance of (referrer, token) to `amount`.
    fn set(&mut self, referrer: &AccountId, token: &AccountId, amount: i128)
        requires
            old(self).wf(),
        ensures
            final(self).wf(),
            final(self)@ == old(self)@.insert((referrer@, token@), amount),
    {
        match self.find(referrer, token) {
            Some(i) => {
                let ghost s = self.entry_seq();
                let e = BalanceEntry {
                    referrer: self.entries[i].referrer.duplicate(),
                    token: self.entries[i].token.duplicate(),
                    amount,
                };
                self.entries.set(i, e);
                proof {
                    lemma_update(s, i as int, amount);
                    assert(self.entry_seq() =~= s.update(i as int, (s[i as int].0, amount)));
                }
            },
            None => {
                let ghost s = self.entry_seq();
                self.entries.push(
                    BalanceEntry { referrer: referrer.duplicate(), token: token.duplicate(), amount },
                );
                proof {
                    lemma_push(s, (referrer@, token@), amount);
                    assert(self.entry_seq() =~= s.push(((referrer@, token@), amount)));
                }
            },
        }
    }

    /// Returns the current balance without modifying it.
    pub fn peek(&self, referrer: &AccountId, token: &AccountId) -> (r: i128)
        requires
            self.wf(),
        ensures
            r == balance_in(self@, referrer@, token@),
    {
        match self.find(referrer, token) {
            Some(i) => {
                proof {
                    lemma_entry(self.entry_seq(), i as int);
                }
                self.entries[i].amount
            },
            None => 0,
        }
    }

    /// Adds `amount` to a referrer's claimable balance for a given token.
    /// A zero amount changes nothing.
    pub fn credit(&mut self, referrer: &AccountId, token: &AccountId, amount: i128)
        requires
            old(self).wf(),
            amount != 0 ==> i128::MIN <= balance_in(old(self)@, referrer@, token@) + amount
                <= i128::MAX,
        ensures
            final(self).wf(),
            amount == 0 ==> final(self)@ == old(self)@,
            amount != 0 ==> final(self)@ == old(self)@.insert(
                (referrer@, token@),
                (balance_in(old(self)@, referrer@, token@) + amount) as i128,
            ),
    {
        if amount == 0 {
            return;
        }
        let bal = self.peek(referrer, token);
        self.set(referrer, token, credited(bal, amount));
    }

    /// Zeroes out and returns the balance (used when claiming). A balance
    /// that is not positive is left as it is.
    pub fn take(&mut self, referrer: &AccountId, token: &AccountId) -> (r: i128)
        requires
            old(self).wf(),
        ensures
            final(self).wf(),
            r == balance_in(old(self)@, referrer@, token@),
            r > 0 ==> final(self)@ == old(self)@.insert((referrer@, token@), 0),
            r <= 0 ==> final(self)@ == old(self)@,
    {
        let (paid, stored) = claim_balance(self.peek(referrer, token));
        match stored {
            Some(v) => self.set(referrer, token, v),
            None => {},
        }
        paid
    }
}

/// The key of a referrer record: (group id, member).
pub type ReferrerKey = (u64, Seq<u8>);

/// Who referred `member` into group `group_id`.
#[derive(Debug)]
pub struct ReferrerEntry {
    pub group_id: u64,
    pub member: AccountId,
    pub referrer: AccountId,
}

/// The referrer of each referred member, per group.
#[derive(Debug)]
pub struct ReferrerRecords {
    entries: Vec<ReferrerEntry>,
}

impl View for ReferrerRecords {
    type V = Map<ReferrerKey, Seq<u8>>;

    closed spec fn view(&self) -> Map<ReferrerKey, Seq<u8>> {
        entries_map(self.entry_seq())
    }
}

impl ReferrerRecords {
    closed spec fn entry_seq(self) -> Seq<(ReferrerKey, Seq<u8>)> {
        self.entries@.map_values(|e: ReferrerEntry| ((e.group_id, e.member@), e.referrer@))
    }

    /// Each (group, member) is stored at most once.
    pub closed spec fn wf(self) -> bool {
        keys_unique(self.entry_seq())
    }

    /// No records.
    pub fn new() -> (r: ReferrerRecords)
        ensures
            r.wf(),
            r@ == Map::<ReferrerKey, Seq<u8>>::empty(),
    {
        let r = ReferrerRecords { entries: Vec::new() };
        proof {
            lemma_empty::<ReferrerKey, Seq<u8>>();
            assert(r.entry_seq() =~= Seq::<(ReferrerKey, Seq<u8>)>::empty());
        }
        r
    }

    fn find(&self, group_id: u64, member: &AccountId) -> (r: Option<usize>)
        requires
            self.wf(),
        ensures
            r matches Some(i) ==> i < self.entries@.len() && self.entry_seq()[i as int].0 == (
                group_id,
                member@,
            ),
            r is None ==> !self@.contains_key((group_id, member@)),
    {
        let mut i: usize = 0;
        while i < self.entries.len()
            invariant
                i <= self.entries@.len(),
                forall|j: int|
                    0 <= j < i ==> #[trigger] self.entry_seq()[j].0 != (group_id, member@),
            decreases self.entries.len() - i,
        {
            let e = &self.entries[i];
            if e.group_id == group_id && e.member.same(member) {
                return Some(i);
            }
            i = i + 1;
        }
        proof {
            lemma_no_entry(self.entry_seq(), (group_id, member@));
        }
        None
    }

    /// The referrer recorded for `member` in group `group_id`, if any.
    pub fn referrer_of(&self, group_id: u64, member: &AccountId) -> (r: Option<AccountId>)
        requires
            self.wf(),
        ensures
            r is Some <==> self@.contains_key((group_id, member@)),
            r matches Some(a) ==> a@ == self@[(group_id, member@)],
    {
        match self.find(group_id, member) {
            Some(i) => {
                proof {
                    lemma_entry(self.entry_seq(), i as int);
                }
                Some(self.entries[i].referrer.duplicate())
            },
            None => None,
        }
    }

    /// Records `referrer` as the referrer of `member` in group `group_id`,
    /// replacing an earlier record.
    pub fn record(&mut self, group_id: u64, member: &AccountId, referrer: AccountId)
        requires
            old(self).wf(),
        ensures
            final(self).wf(),
            final(self)@ == old(self)@.insert((group_id, member@), referrer@),
    {
        let ghost s = self.entry_seq();
        let ghost v = referrer@;
        match self.find(group_id, member) {
            Some(i) => {
                let e = ReferrerEntry {
                    group_id,
                    member: self.entries[i].member.duplicate(),
                    referrer,
                };
                self.entries.set(i, e);
                proof {
                    lemma_update(s, i as int, v);
                    assert(self.entry_seq() =~= s.update(i as int, (s[i as int].0, v)));
                }
            },
            None => {
                self.entries.push(ReferrerEntry { group_id, member: member.duplicate(), referrer });
                proof {
                    lemma_push(s, (group_id, member@), v);
                    assert(self.entry_seq() =~= s.push(((group_id, member@), v)));
                }
            },
        }
    }
}

} // verus!
