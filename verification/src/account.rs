//! Accounts are named by the text of their Stellar address (`G...` for
//! accounts, `C...` for contracts); two accounts are the same exactly when
//! their texts are.

use vstd::prelude::*;

verus! {

/// The address text of a participant, admin or reward holder.
pub type AccountId = String;

/// The views of a list of accounts.
pub open spec fn account_views(v: Seq<AccountId>) -> Seq<Seq<char>> {
    v.map_values(|a: AccountId| a@)
}

/// Finds `who` in `accounts`.
pub fn find_account(accounts: &Vec<AccountId>, who: &AccountId) -> (r: Option<usize>)
    ensures
        match r {
            Some(i) => i < accounts@.len() && accounts@[i as int]@ == who@,
            None => !account_views(accounts@).contains(who@),
        },
        r is Some <==> account_views(accounts@).contains(who@),
{
    let mut i: usize = 0;
    while i < accounts.len()
        invariant
            0 <= i <= accounts@.len(),
            forall|k: int| 0 <= k < i ==> accounts@[k]@ != who@,
        decreases accounts@.len() - i,
    {
        if accounts[i] == *who {
            assert(account_views(accounts@)[i as int] == who@);
            return Some(i);
        }
        i = i + 1;
    }
    assert forall|k: int| 0 <= k < account_views(accounts@).len() implies account_views(accounts@)[k] != who@ by {
        assert(account_views(accounts@)[k] == accounts@[k]@);
    }
    None
}

/// Whether no account occurs twice in `accounts`.
pub fn all_distinct(accounts: &Vec<AccountId>) -> (r: bool)
    ensures
        r == account_views(accounts@).no_duplicates(),
{
    let n: usize = accounts.len();
    let ghost vs = account_views(accounts@);
    let mut i: usize = 0;
    while i < n
        invariant
            n == accounts@.len(),
            vs == account_views(accounts@),
            0 <= i <= n,
            forall|a: int, b: int| 0 <= a < i && a < b < n ==> vs[a] != vs[b],
        decreases n - i,
    {
        let mut j: usize = i + 1;
        while j < n
            invariant
                n == accounts@.len(),
                vs == account_views(accounts@),
                0 <= i < n,
                i + 1 <= j <= n,
                forall|a: int, b: int| 0 <= a < i && a < b < n ==> vs[a] != vs[b],
                forall|b: int| i < b < j ==> vs[i as int] != vs[b],
            decreases n - j,
        {
            if accounts[i] == accounts[j] {
                assert(vs[i as int] == vs[j as int]);
                return false;
            }
            j = j + 1;
        }
        i = i + 1;
    }
    assert forall|a: int, b: int| 0 <= a < vs.len() && 0 <= b < vs.len() && a != b implies vs[a] != vs[b] by {
        if a > b {
            assert(vs[b] != vs[a]);
        }
    }
    true
}

} // verus!
