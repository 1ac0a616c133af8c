use vstd::prelude::*;

verus! {

/// An account or contract address, held as the bytes of its StrKey text
/// (for example `G...` for an account, `C...` for a contract).
///
/// Two addresses are the same exactly when their bytes are the same.
#[derive(Clone, Debug, PartialEq, Eq)]
pub struct AccountId {
    pub key: Vec<u8>,
}

impl View for AccountId {
    type V = Seq<u8>;

    open spec fn view(&self) -> Seq<u8> {
        self.key@
    }
}

impl AccountId {
    /// An address with the given key bytes.
    pub fn new(key: Vec<u8>) -> (r: AccountId)
        ensures
            r@ == key@,
    {
        AccountId { key }
    }

    /// Whether `self` and `other` name the same address.
    pub fn same(&self, other: &AccountId) -> (r: bool)
        ensures
            r == (self@ == other@),
    {
        let r = self.key == other.key;
        proof {
            if r {
                assert(self.key@ =~= other.key@);
            }
        }
        r
    }

    /// A second, equal copy of this address.
    pub fn duplicate(&self) -> (r: AccountId)
        ensures
            r@ == self@,
    {
        let k = self.key.clone();
        AccountId { key: k }
    }
}

/// An optional address, by its key bytes.
pub open spec fn opt_view(a: Option<AccountId>) -> Option<Seq<u8>> {
    match a {
        Some(x) => Some(x@),
        None => None,
    }
}

/// The addresses of a list, each taken by its key bytes.
pub open spec fn accounts_view(v: Seq<AccountId>) -> Seq<Seq<u8>> {
    v.map_values(|a: AccountId| a@)
}

/// Whether the list holds the address `who`.
pub fn contains_account(v: &Vec<AccountId>, who: &AccountId) -> (r: bool)
    ensures
        r == accounts_view(v@).contains(who@),
{
    let mut i: usize = 0;
    while i < v.len()
        invariant
            i <= v.len(),
            forall|j: int| 0 <= j < i ==> v@[j]@ != who@,
        decreases v.len() - i,
    {
        if v[i].same(who) {
            assert(accounts_view(v@)[i as int] == who@);
            return true;
        }
        i = i + 1;
    }
    proof {
        if accounts_view(v@).contains(who@) {
            let j = choose|j: int| 0 <= j < accounts_view(v@).len() && accounts_view(v@)[j] == who@;
            assert(v@[j]@ == who@);
        }
    }
    false
}

/// A copy of a list of addresses.
pub fn copy_accounts(v: &Vec<AccountId>) -> (r: Vec<AccountId>)
    ensures
        accounts_view(r@) == accounts_view(v@),
{
    let mut r: Vec<AccountId> = Vec::new();
    let mut i: usize = 0;
    while i < v.len()
        invariant
            i <= v.len(),
            r@.len() == i,
            forall|j: int| 0 <= j < i ==> r@[j]@ == v@[j]@,
        decreases v.len() - i,
    {
        r.push(v[i].duplicate());
        i = i + 1;
    }
    assert(accounts_view(r@) =~= accounts_view(v@));
    r
}

} // verus!
