//! The Linear accounts, by key.
use vstd::prelude::*;

use crate::linear::client::{authorization, LinearClient};
use crate::linear::error::{LinearError, LinearErrorModel};
use crate::string_map::StringMap;

verus! {

/// The credentials of several accounts, by account key.
#[derive(Debug)]
pub struct LinearService {
    accounts: StringMap<LinearClient>,
}

impl View for LinearService {
    type V = Map<Seq<char>, Seq<char>>;

    closed spec fn view(&self) -> Map<Seq<char>, Seq<char>> {
        self.accounts@
    }
}

impl Clone for LinearService {
    fn clone(&self) -> (r: LinearService)
        ensures
            r@ == self@,
    {
        LinearService { accounts: self.accounts.duplicate() }
    }
}

impl Default for LinearService {
    fn default() -> (r: LinearService)
        ensures
            r@ == Map::<Seq<char>, Seq<char>>::empty(),
    {
        LinearService { accounts: StringMap::new() }
    }
}

impl LinearService {
    /// The accounts of a map.
    pub fn new(accounts: StringMap<LinearClient>) -> (r: LinearService)
        ensures
            r@ == accounts@,
    {
        LinearService { accounts }
    }

    /// The accounts of a map from keys to tokens.
    pub fn from_tokens(tokens: &StringMap<String>) -> (r: LinearService)
        ensures
            r@.dom() == tokens@.dom(),
            forall|k: Seq<char>| #[trigger]
                tokens@.dom().contains(k) ==> r@[k] == authorization(tokens@[k]),
    {
        let mut accounts: StringMap<LinearClient> = StringMap::new();
        let n = tokens.len();
        let ghost keys = tokens.keys_in_order();
        for i in 0..n
            invariant
                n == keys.len(),
                keys == tokens.keys_in_order(),
                forall|k: Seq<char>| #[trigger]
                    accounts@.dom().contains(k) <==> keys.take(i as int).contains(k),
                forall|k: Seq<char>| #[trigger]
                    accounts@.dom().contains(k) ==> tokens@.dom().contains(k) && accounts@[k]
                        == authorization(tokens@[k]),
        {
            let (key, token) = tokens.entry(i);
            accounts.insert(key.to_owned(), LinearClient::new(token.as_str()));
            proof {
                let grown = keys.take(i + 1);
                assert(grown =~= keys.take(i as int).push(key@));
                assert forall|k: Seq<char>| #[trigger] accounts@.dom().contains(k) <==> grown.contains(
                    k,
                ) by {
                    if keys.take(i as int).contains(k) {
                        let j = choose|j: int| 0 <= j < i && keys.take(i as int)[j] == k;
                        assert(grown[j] == k);
                    }
                    assert(grown[i as int] == key@);
                }
            }
        }
        proof {
            assert(keys.take(n as int) =~= keys);
            tokens.lemma_keys_in_order();
            assert(accounts@.dom() =~= tokens@.dom());
        }
        LinearService { accounts }
    }

    /// The credentials of an account.
    pub fn client(&self, account_key: &str) -> (r: Result<&LinearClient, LinearError>)
        ensures
            match r {
                Ok(c) => self@.dom().contains(account_key@) && c@ == self@[account_key@],
                Err(e) => !self@.dom().contains(account_key@) && e@
                    == LinearErrorModel::UnknownAccount(account_key@),
            },
    {
        match self.accounts.get(account_key) {
            Some(c) => Ok(c),
            None => Err(LinearError::UnknownAccount(account_key.to_owned())),
        }
    }

    /// Whether an account is configured.
    pub fn has_account(&self, account_key: &str) -> (r: bool)
        ensures
            r == self@.dom().contains(account_key@),
    {
        self.accounts.contains_key(account_key)
    }
}

} // verus!
