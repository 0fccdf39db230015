//! Authorization: which bind identities may use the proxy, and what each may
//! search.
use crate::text::{ends_with_comma_then, ends_with_rdn_of, normalize, normalized};
use vstd::prelude::*;

verus! {

/// The policy of one bind identity.
pub struct DnConfig {
    /// Search bases this identity may query, each together with its subtree.
    pub allowed_bases: Vec<String>,
    /// How long, in clock ticks, results of its searches stay in the cache.
    pub cache_ttl: u64,
}

/// A normalised search base lies at or under a normalised allowed base.
pub open spec fn base_within(base: Seq<char>, allowed: Seq<char>) -> bool {
    base == allowed || ends_with_rdn_of(base, allowed)
}

impl DnConfig {
    /// The policy lets a search with this normalised base through.
    pub open spec fn permits_base(self, base: Seq<char>) -> bool {
        exists|i: int|
            0 <= i < self.allowed_bases@.len() && base_within(
                base,
                normalized(#[trigger] self.allowed_bases@[i]@),
            )
    }

    pub fn permits(&self, base: &String) -> (r: bool)
        ensures
            r == self.permits_base(base@),
    {
        let mut i: usize = 0;
        while i < self.allowed_bases.len()
            invariant
                i <= self.allowed_bases@.len(),
                forall|j: int|
                    0 <= j < i ==> !base_within(base@, normalized(#[trigger] self.allowed_bases@[j]@)),
            decreases self.allowed_bases@.len() - i,
        {
            let allowed = normalize(self.allowed_bases[i].as_str());
            if *base == allowed || ends_with_comma_then(base.as_str(), allowed.as_str()) {
                return true;
            }
            i = i + 1;
        }
        false
    }
}

/// The authorization map: bind identities and their policies.
pub struct AuthMap {
    pub entries: Vec<(String, DnConfig)>,
}

impl AuthMap {
    pub open spec fn has(self, dn: Seq<char>) -> bool {
        exists|i: int| 0 <= i < self.entries@.len() && (#[trigger] self.entries@[i]).0@ == dn
    }

    /// The policy of `dn` is the one of its first entry.
    pub open spec fn policy_at(self, dn: Seq<char>, i: int) -> bool {
        &&& 0 <= i < self.entries@.len()
        &&& self.entries@[i].0@ == dn
        &&& forall|j: int| 0 <= j < i ==> (#[trigger] self.entries@[j]).0@ != dn
    }

    pub fn new() -> (r: AuthMap)
        ensures
            r.entries@.len() == 0,
    {
        AuthMap { entries: Vec::new() }
    }

    pub fn insert(&mut self, dn: String, config: DnConfig)
        ensures
            final(self).entries@ == old(self).entries@.push((dn, config)),
    {
        self.entries.push((dn, config));
    }

    /// The position of the policy of `dn`.
    pub fn find(&self, dn: &String) -> (r: Option<usize>)
        ensures
            r is None <==> !self.has(dn@),
            r matches Some(i) ==> self.policy_at(dn@, i as int),
    {
        let mut i: usize = 0;
        while i < self.entries.len()
            invariant
                i <= self.entries@.len(),
                forall|j: int| 0 <= j < i ==> (#[trigger] self.entries@[j]).0@ != dn@,
            decreases self.entries@.len() - i,
        {
            if self.entries[i].0 == *dn {
                return Some(i);
            }
            i = i + 1;
        }
        None
    }

    pub fn get(&self, dn: &String) -> (r: Option<&DnConfig>)
        ensures
            r is None <==> !self.has(dn@),
            r matches Some(c) ==> exists|i: int| self.policy_at(dn@, i) && *c == self.entries@[i].1,
    {
        match self.find(dn) {
            Some(i) => Some(&self.entries[i].1),
            None => None,
        }
    }
}

} // verus!
