//! The registry of connected accounts: credentials and other state held in
//! memory under the normalized address of each account.

use crate::models::{Credentials, Provider};
use crate::text::{blank, is_blank, lower_case, text_eq, to_lower_case, trim, trimmed};
use vstd::prelude::*;
use vstd::string::*;

verus! {

/// The key of an account: its address trimmed, in lower case.
pub open spec fn account_key(email: Seq<char>) -> Seq<char> {
    lower_case(trim(email))
}

pub fn normalize_email(email: &str) -> (r: String)
    ensures
        r@ == account_key(email@),
{
    to_lower_case(trimmed(email).as_str())
}

/// What a request to connect must bring: an address and a password that
/// are not blank. The result is the key of the account.
pub fn validate_connect(email: &str, password: &str) -> (r: Result<String, String>)
    ensures
        match r {
            Ok(key) => !is_blank(email@) && !is_blank(password@) && key@ == account_key(email@),
            Err(message) => if is_blank(email@) {
                message@ == "Email address is required"@
            } else {
                is_blank(password@) && message@ == "App password is required"@
            },
        },
{
    if blank(email) {
        return Err("Email address is required".to_owned());
    }
    if blank(password) {
        return Err("App password is required".to_owned());
    }
    Ok(normalize_email(email))
}

/// A map from account keys to values, kept in the order of arrival.
pub struct AccountMap<V> {
    entries: Vec<(String, V)>,
}

impl<V> AccountMap<V> {
    /// No key is held twice.
    pub closed spec fn wf(&self) -> bool {
        forall|i: int, j: int|
            0 <= i < self.entries.len() && 0 <= j < self.entries.len() && i != j
                ==> self.entries@[i].0@ != self.entries@[j].0@
    }

    pub closed spec fn has(&self, key: Seq<char>) -> bool {
        exists|i: int| 0 <= i < self.entries.len() && self.entries@[i].0@ == key
    }

    pub closed spec fn at(&self, key: Seq<char>) -> V {
        self.entries@[choose|i: int| 0 <= i < self.entries.len() && self.entries@[i].0@ == key].1
    }

    /// The map that is held.
    pub open spec fn view(&self) -> Map<Seq<char>, V> {
        Map::new(|k: Seq<char>| self.has(k), |k: Seq<char>| self.at(k))
    }

    pub fn new() -> (r: AccountMap<V>)
        ensures
            r.wf(),
            r@ == Map::<Seq<char>, V>::empty(),
    {
        let r = AccountMap { entries: Vec::new() };
        assert(r@ =~= Map::<Seq<char>, V>::empty());
        r
    }

    pub fn len(&self) -> (r: usize)
        ensures
            r == self.count(),
    {
        self.entries.len()
    }

    /// The number of keys.
    pub closed spec fn count(&self) -> nat {
        self.entries.len() as nat
    }

    #[verifier::loop_isolation(false)]
    fn position(&self, key: &str) -> (r: Option<usize>)
        requires
            self.wf(),
        ensures
            match r {
                Some(i) => i < self.entries.len() && self.entries@[i as int].0@ == key@
                    && self.has(key@) && self.at(key@) == self.entries@[i as int].1,
                None => !self.has(key@),
            },
    {
        let mut i: usize = 0;
        while i < self.entries.len()
            invariant
                i <= self.entries.len(),
                forall|k: int| 0 <= k < i ==> self.entries@[k].0@ != key@,
            decreases self.entries.len() - i,
        {
            if text_eq(self.entries[i].0.as_str(), key) {
                proof {
                    assert(self.entries@[i as int].0@ == key@);
                    let j = choose|j: int|
                        0 <= j < self.entries.len() && self.entries@[j].0@ == key@;
                    assert(j == i);
                }
                return Some(i);
            }
            i += 1;
        }
        None
    }

    pub fn contains_key(&self, key: &str) -> (r: bool)
        requires
            self.wf(),
        ensures
            r == self@.dom().contains(key@),
    {
        self.position(key).is_some()
    }

    pub fn get(&self, key: &str) -> (r: Option<&V>)
        requires
            self.wf(),
        ensures
            match r {
                Some(v) => self@.dom().contains(key@) && self@[key@] == *v,
                None => !self@.dom().contains(key@),
            },
    {
        match self.position(key) {
            Some(i) => Some(&self.entries[i].1),
            None => None,
        }
    }

    /// Puts a value under a key; a value that the key held before is
    /// replaced.
    pub fn insert(&mut self, key: &str, value: V)
        requires
            old(self).wf(),
        ensures
            final(self).wf(),
            final(self)@ == old(self)@.insert(key@, value),
    {
        match self.position(key) {
            Some(i) => {
                self.entries.set(i, (key.to_owned(), value));
                proof {
                    assert forall|k: Seq<char>| old(self)@.insert(key@, value).dom().contains(
                        k,
                    ) <==> self@.dom().contains(k) by {
                        if self.has(k) {
                            let j = choose|j: int|
                                0 <= j < self.entries.len() && self.entries@[j].0@ == k;
                            if j != i {
                                assert(old(self).entries@[j].0@ == k);
                            }
                        }
                        if old(self).has(k) {
                            let j = choose|j: int|
                                0 <= j < old(self).entries.len() && old(self).entries@[j].0@ == k;
                            assert(self.entries@[j].0@ == k);
                        }
                        if k == key@ {
                            assert(self.entries@[i as int].0@ == k);
                        }
                    }
                    assert forall|k: Seq<char>| self@.dom().contains(k) implies self@[k] == old(
                        self,
                    )@.insert(key@, value)[k] by {
                        let j = choose|j: int|
                            0 <= j < self.entries.len() && self.entries@[j].0@ == k;
                        if k == key@ {
                            assert(j == i);
                        } else {
                            assert(old(self).entries@[j].0@ == k);
                            let j0 = choose|j0: int|
                                0 <= j0 < old(self).entries.len() && old(self).entries@[j0].0@ == k;
                            assert(j0 == j);
                        }
                    }
                    assert(self@ =~= old(self)@.insert(key@, value));
                }
            },
            None => {
                self.entries.push((key.to_owned(), value));
                proof {
                    let n = old(self).entries.len() as int;
                    assert forall|k: Seq<char>| old(self)@.insert(key@, value).dom().contains(
                        k,
                    ) <==> self@.dom().contains(k) by {
                        if self.has(k) {
                            let j = choose|j: int|
                                0 <= j < self.entries.len() && self.entries@[j].0@ == k;
                            if j < n {
                                assert(old(self).entries@[j].0@ == k);
                            }
                        }
                        if old(self).has(k) {
                            let j = choose|j: int|
                                0 <= j < old(self).entries.len() && old(self).entries@[j].0@ == k;
                            assert(self.entries@[j].0@ == k);
                        }
                        if k == key@ {
                            assert(self.entries@[n].0@ == k);
                        }
                    }
                    assert forall|a: int, b: int|
                        0 <= a < self.entries.len() && 0 <= b < self.entries.len() && a
                            != b implies self.entries@[a].0@ != self.entries@[b].0@ by {
                        if a < n && b < n {
                            assert(old(self).entries@[a].0@ != old(self).entries@[b].0@);
                        } else if a < n {
                            assert(old(self).entries@[a].0@ == self.entries@[a].0@);
                        } else {
                            assert(old(self).entries@[b].0@ == self.entries@[b].0@);
                        }
                    }
                    assert forall|k: Seq<char>| self@.dom().contains(k) implies self@[k] == old(
                        self,
                    )@.insert(key@, value)[k] by {
                        let j = choose|j: int|
                            0 <= j < self.entries.len() && self.entries@[j].0@ == k;
                        if k == key@ {
                            assert(j == n);
                        } else {
                            assert(j < n);
                            assert(old(self).entries@[j].0@ == k);
                            let j0 = choose|j0: int|
                                0 <= j0 < old(self).entries.len() && old(self).entries@[j0].0@ == k;
                            assert(j0 == j);
                        }
                    }
                    assert(self@ =~= old(self)@.insert(key@, value));
                }
            },
        }
    }

    /// Takes a key out and hands back what it held.
    pub fn remove(&mut self, key: &str) -> (r: Option<V>)
        requires
            old(self).wf(),
        ensures
            final(self).wf(),
            final(self)@ == old(self)@.remove(key@),
            match r {
                Some(v) => old(self)@.dom().contains(key@) && old(self)@[key@] == v,
                None => !old(self)@.dom().contains(key@),
            },
    {
        match self.position(key) {
            Some(i) => {
                let removed = self.entries.remove(i);
                proof {
                    let before = old(self).entries@;
                    let after = self.entries@;
                    assert(after =~= before.remove(i as int));
                    assert forall|a: int, b: int|
                        0 <= a < after.len() && 0 <= b < after.len() && a != b implies after[a].0@
                        != after[b].0@ by {
                        let a2 = if a < i { a } else { a + 1 };
                        let b2 = if b < i { b } else { b + 1 };
                        assert(after[a] == before[a2]);
                        assert(after[b] == before[b2]);
                    }
                    assert forall|k: Seq<char>| old(self)@.remove(key@).dom().contains(k)
                        <==> self@.dom().contains(k) by {
                        if self.has(k) {
                            let j = choose|j: int| 0 <= j < after.len() && after[j].0@ == k;
                            let j2 = if j < i { j } else { j + 1 };
                            assert(before[j2].0@ == k);
                        }
                        if old(self).has(k) && k != key@ {
                            let j = choose|j: int| 0 <= j < before.len() && before[j].0@ == k;
                            let j2 = if j < i { j } else { j - 1 };
                            assert(after[j2].0@ == k);
                        }
                    }
                    assert forall|k: Seq<char>| self@.dom().contains(k) implies self@[k] == old(
                        self,
                    )@.remove(key@)[k] by {
                        let j = choose|j: int| 0 <= j < after.len() && after[j].0@ == k;
                        let j2 = if j < i { j } else { j + 1 };
                        assert(before[j2].0@ == k);
                        let j0 = choose|j0: int| 0 <= j0 < before.len() && before[j0].0@ == k;
                        assert(j0 == j2);
                    }
                    assert(self@ =~= old(self)@.remove(key@));
                }
                Some(removed.1)
            },
            None => {
                assert(self@ =~= old(self)@.remove(key@));
                None
            },
        }
    }

    /// The keys, in the order in which they arrived.
    pub fn keys(&self) -> (r: Vec<String>)
        requires
            self.wf(),
        ensures
            r.len() == self.count(),
            forall|i: int| 0 <= i < r.len() ==> self@.dom().contains(#[trigger] r@[i]@),
    {
        let mut out: Vec<String> = Vec::new();
        let mut i: usize = 0;
        while i < self.entries.len()
            invariant
                i <= self.entries.len(),
                out.len() == i,
                forall|k: int| 0 <= k < i ==> out@[k]@ == self.entries@[k].0@,
            decreases self.entries.len() - i,
        {
            out.push(self.entries[i].0.clone());
            i += 1;
        }
        out
    }
}

/// Why the credentials of a request are not handed out.
#[derive(Debug, Clone, Copy, PartialEq, Eq, Structural)]
pub enum AccessError {
    NotConnected,
    ProviderMismatch,
}

impl AccessError {
    pub open spec fn message(self) -> Seq<char> {
        match self {
            AccessError::NotConnected => "Account is not connected"@,
            AccessError::ProviderMismatch => "Provider mismatch for stored credentials"@,
        }
    }

    pub fn to_message(&self) -> (r: String)
        ensures
            r@ == self.message(),
    {
        match self {
            AccessError::NotConnected => "Account is not connected".to_owned(),
            AccessError::ProviderMismatch => "Provider mismatch for stored credentials".to_owned(),
        }
    }
}

/// The credentials that a request may use: those held under the account's
/// key, where they are of the provider that the request names.
pub fn credentials_for(accounts: &AccountMap<Credentials>, key: &str, provider: Provider) -> (r:
    Result<Credentials, AccessError>)
    requires
        accounts.wf(),
    ensures
        match r {
            Ok(c) => accounts@.dom().contains(key@) && c@ == accounts@[key@]@ && c.provider
                == provider,
            Err(e) => if accounts@.dom().contains(key@) {
                e == AccessError::ProviderMismatch && accounts@[key@].provider != provider
            } else {
                e == AccessError::NotConnected
            },
        },
{
    match accounts.get(key) {
        Some(stored) => {
            if stored.provider == provider {
                Ok(stored.duplicate())
            } else {
                Err(AccessError::ProviderMismatch)
            }
        },
        None => Err(AccessError::NotConnected),
    }
}

} // verus!
