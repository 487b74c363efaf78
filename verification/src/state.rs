//! State that lives for the whole run of the app: the tokens entered per
//! provider, the user each one belongs to, and the poll interval.

use vstd::prelude::*;

use crate::model::{clamp_u64, ProviderKind, TokenState};

verus! {

/// One string per provider at most: a provider with nothing entered is
/// absent.
pub struct ProviderMap {
    gitlab: Option<String>,
    github: Option<String>,
    azure: Option<String>,
}

pub open spec fn slot_view(o: Option<String>) -> Option<Seq<char>> {
    match o {
        Some(s) => Some(s@),
        None => None,
    }
}

impl ProviderMap {
    pub closed spec fn slot(&self, k: ProviderKind) -> Option<Seq<char>> {
        match k {
            ProviderKind::Gitlab => slot_view(self.gitlab),
            ProviderKind::Github => slot_view(self.github),
            ProviderKind::Azure => slot_view(self.azure),
        }
    }

    /// The entries as a map from provider to string.
    pub open spec fn to_map(&self) -> Map<ProviderKind, Seq<char>> {
        Map::new(|k: ProviderKind| self.slot(k) is Some, |k: ProviderKind| self.slot(k)->0)
    }

    pub fn new() -> (res: Self)
        ensures
            res.to_map() == Map::<ProviderKind, Seq<char>>::empty(),
    {
        let res = ProviderMap { gitlab: None, github: None, azure: None };
        assert(res.to_map() =~= Map::<ProviderKind, Seq<char>>::empty());
        res
    }

    pub fn get(&self, k: ProviderKind) -> (res: Option<&String>)
        ensures
            match res {
                Some(s) => self.to_map().contains_key(k) && self.to_map()[k] == s@,
                None => !self.to_map().contains_key(k),
            },
    {
        match k {
            ProviderKind::Gitlab => self.gitlab.as_ref(),
            ProviderKind::Github => self.github.as_ref(),
            ProviderKind::Azure => self.azure.as_ref(),
        }
    }

    pub fn contains_key(&self, k: ProviderKind) -> (res: bool)
        ensures
            res == self.to_map().contains_key(k),
    {
        match k {
            ProviderKind::Gitlab => self.gitlab.is_some(),
            ProviderKind::Github => self.github.is_some(),
            ProviderKind::Azure => self.azure.is_some(),
        }
    }

    pub fn is_empty(&self) -> (res: bool)
        ensures
            res == (self.to_map().dom() == Set::<ProviderKind>::empty()),
    {
        let res = self.gitlab.is_none() && self.github.is_none() && self.azure.is_none();
        proof {
            if res {
                assert(self.to_map().dom() =~= Set::<ProviderKind>::empty());
            } else {
                if self.gitlab.is_some() {
                    assert(self.to_map().dom().contains(ProviderKind::Gitlab));
                } else if self.github.is_some() {
                    assert(self.to_map().dom().contains(ProviderKind::Github));
                } else {
                    assert(self.to_map().dom().contains(ProviderKind::Azure));
                }
            }
        }
        res
    }

    /// Sets the entry for `k`, giving back the one it replaces.
    pub fn insert(&mut self, k: ProviderKind, v: String) -> (prev: Option<String>)
        ensures
            final(self).to_map() == old(self).to_map().insert(k, v@),
            slot_view(prev) == old(self).slot(k),
            match prev {
                Some(p) => old(self).to_map().contains_key(k) && old(self).to_map()[k] == p@,
                None => !old(self).to_map().contains_key(k),
            },
    {
        let prev = match k {
            ProviderKind::Gitlab => {
                let p = self.gitlab.take();
                self.gitlab = Some(v);
                p
            },
            ProviderKind::Github => {
                let p = self.github.take();
                self.github = Some(v);
                p
            },
            ProviderKind::Azure => {
                let p = self.azure.take();
                self.azure = Some(v);
                p
            },
        };
        assert(self.to_map() =~= old(self).to_map().insert(k, v@));
        prev
    }

    /// Drops the entry for `k`, giving it back.
    pub fn remove(&mut self, k: ProviderKind) -> (prev: Option<String>)
        ensures
            final(self).to_map() == old(self).to_map().remove(k),
            slot_view(prev) == old(self).slot(k),
    {
        let prev = match k {
            ProviderKind::Gitlab => self.gitlab.take(),
            ProviderKind::Github => self.github.take(),
            ProviderKind::Azure => self.azure.take(),
        };
        assert(self.to_map() =~= old(self).to_map().remove(k));
        prev
    }

    /// Puts back what an `insert` replaced: the previous entry, or none.
    pub fn restore(&mut self, k: ProviderKind, previous: Option<String>)
        ensures
            final(self).to_map() == match previous {
                Some(p) => old(self).to_map().insert(k, p@),
                None => old(self).to_map().remove(k),
            },
    {
        match previous {
            Some(p) => {
                self.insert(k, p);
            },
            None => {
                self.remove(k);
            },
        }
    }
}

/// A token that fails verification is rolled back: entering a token and
/// then putting back what it replaced leaves the token store as it was.
pub proof fn law_rollback_restores_tokens(m: Map<ProviderKind, Seq<char>>, k: ProviderKind, t: Seq<char>)
    ensures
        ({
            let prev = if m.contains_key(k) {
                Some(m[k])
            } else {
                None
            };
            let after = m.insert(k, t);
            (match prev {
                Some(p) => after.insert(k, p),
                None => after.remove(k),
            }) == m
        }),
{
    let after = m.insert(k, t);
    if m.contains_key(k) {
        assert(after.insert(k, m[k]) =~= m);
    } else {
        assert(after.remove(k) =~= m);
    }
}

/// Whether a provider has a token, and whose it is.
pub fn token_state_of(tokens: &ProviderMap, usernames: &ProviderMap, k: ProviderKind) -> (res: TokenState)
    ensures
        res.present == tokens.to_map().contains_key(k),
        match res.username {
            Some(u) => usernames.to_map().contains_key(k) && usernames.to_map()[k] == u@,
            None => !usernames.to_map().contains_key(k),
        },
{
    TokenState {
        present: tokens.contains_key(k),
        username: match usernames.get(k) {
            Some(u) => Some(u.clone()),
            None => None,
        },
    }
}

/// The poll interval in seconds: the configured one, kept within five
/// seconds and an hour.
pub fn poll_interval_secs(poll_seconds: u64) -> (res: u64)
    ensures
        res == clamp_u64(poll_seconds, 5, 3600),
        5 <= res <= 3600,
{
    if poll_seconds < 5 {
        5
    } else if poll_seconds > 3600 {
        3600
    } else {
        poll_seconds
    }
}

/// Whether the settings open at startup: unless the app starts collapsed,
/// and always while nothing is watched yet.
pub fn settings_at_startup(start_collapsed: bool, watched_count: usize) -> (res: bool)
    ensures
        res == (!start_collapsed || watched_count == 0),
{
    !start_collapsed || watched_count == 0
}

} // verus!
