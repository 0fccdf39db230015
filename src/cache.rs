//! The search-result cache: normalised queries mapped to complete result
//! sets with an expiry instant, bounded by an estimated byte budget.
use crate::message::{
    copy_controls, entries_equal, entry_equal, result_equal, LdapResult,
    PartialAttribute, SearchEntry, SearchRequest, SearchScope,
};
use crate::text::{normalize, normalized};
use ldap3_proto::control::LdapControl;
use vstd::prelude::*;
use vstd::string::StrSliceExecFns;

verus! {

/// Fixed footprint of a cached record, its terminating result included.
pub const CACHED_VALUE_OVERHEAD: usize = 144;

/// Fixed footprint of one entry.
pub const ENTRY_OVERHEAD: usize = 48;

/// Fixed footprint of one attribute.
pub const ATTRIBUTE_OVERHEAD: usize = 48;

/// Fixed footprint of one attribute value.
pub const VALUE_OVERHEAD: usize = 24;

/// Estimated footprint of one response control.
pub const CONTROL_OVERHEAD: usize = 64;

/// `x` clamped to what a `usize` holds.
pub open spec fn sat(x: int) -> int {
    if x > usize::MAX {
        usize::MAX as int
    } else {
        x
    }
}

pub open spec fn values_size(vals: Seq<Vec<u8>>) -> nat
    decreases vals.len(),
{
    if vals.len() == 0 {
        0
    } else {
        (values_size(vals.drop_last()) + VALUE_OVERHEAD + vals.last()@.len()) as nat
    }
}

pub open spec fn attribute_size(a: PartialAttribute) -> nat {
    (ATTRIBUTE_OVERHEAD + a.atype@.len() + values_size(a.vals@)) as nat
}

pub open spec fn attributes_size(attrs: Seq<PartialAttribute>) -> nat
    decreases attrs.len(),
{
    if attrs.len() == 0 {
        0
    } else {
        (attributes_size(attrs.drop_last()) + attribute_size(attrs.last())) as nat
    }
}

pub open spec fn entry_size(e: SearchEntry) -> nat {
    (ENTRY_OVERHEAD + e.dn@.len() + attributes_size(e.attributes@)) as nat
}

pub open spec fn entries_size(es: Seq<SearchEntry>) -> nat
    decreases es.len(),
{
    if es.len() == 0 {
        0
    } else {
        (entries_size(es.drop_last()) + entry_size(es.last())) as nat
    }
}

/// Estimated footprint of a result set: the fixed record, each entry with its
/// name and attribute values, and each control.
pub open spec fn result_set_size(
    entries: Seq<SearchEntry>,
    result: LdapResult,
    ctrl: Seq<LdapControl>,
) -> nat {
    (CACHED_VALUE_OVERHEAD + entries_size(entries) + ctrl.len() * CONTROL_OVERHEAD) as nat
}

proof fn lemma_sat_add(x: int, y: int)
    requires
        x >= 0,
        y >= 0,
    ensures
        sat(x + y) == (if sat(x) + sat(y) > usize::MAX {
            usize::MAX as int
        } else {
            sat(x) + sat(y)
        }),
{
}

fn values_footprint(vals: &Vec<Vec<u8>>) -> (r: usize)
    ensures
        r == sat(values_size(vals@) as int),
{
    let mut total: usize = 0;
    let mut i: usize = 0;
    while i < vals.len()
        invariant
            i <= vals@.len(),
            total == sat(values_size(vals@.subrange(0, i as int)) as int),
        decreases vals@.len() - i,
    {
        proof {
            let s = vals@.subrange(0, i as int + 1);
            assert(s.drop_last() =~= vals@.subrange(0, i as int));
            lemma_sat_add(
                values_size(vals@.subrange(0, i as int)) as int,
                VALUE_OVERHEAD + vals@[i as int]@.len(),
            );
        }
        total = total.saturating_add(VALUE_OVERHEAD.saturating_add(vals[i].len()));
        i = i + 1;
    }
    assert(vals@.subrange(0, i as int) =~= vals@);
    total
}

fn attribute_footprint(a: &PartialAttribute) -> (r: usize)
    ensures
        r == sat(attribute_size(*a) as int),
{
    proof {
        lemma_sat_add(ATTRIBUTE_OVERHEAD + a.atype@.len(), values_size(a.vals@) as int);
    }
    ATTRIBUTE_OVERHEAD.saturating_add(a.atype.as_str().unicode_len()).saturating_add(
        values_footprint(&a.vals),
    )
}

fn attributes_footprint(attrs: &Vec<PartialAttribute>) -> (r: usize)
    ensures
        r == sat(attributes_size(attrs@) as int),
{
    let mut total: usize = 0;
    let mut i: usize = 0;
    while i < attrs.len()
        invariant
            i <= attrs@.len(),
            total == sat(attributes_size(attrs@.subrange(0, i as int)) as int),
        decreases attrs@.len() - i,
    {
        proof {
            let s = attrs@.subrange(0, i as int + 1);
            assert(s.drop_last() =~= attrs@.subrange(0, i as int));
            lemma_sat_add(
                attributes_size(attrs@.subrange(0, i as int)) as int,
                attribute_size(attrs@[i as int]) as int,
            );
        }
        total = total.saturating_add(attribute_footprint(&attrs[i]));
        i = i + 1;
    }
    assert(attrs@.subrange(0, i as int) =~= attrs@);
    total
}

fn entry_footprint(e: &SearchEntry) -> (r: usize)
    ensures
        r == sat(entry_size(*e) as int),
{
    proof {
        lemma_sat_add(ENTRY_OVERHEAD + e.dn@.len(), attributes_size(e.attributes@) as int);
    }
    ENTRY_OVERHEAD.saturating_add(e.dn.as_str().unicode_len()).saturating_add(
        attributes_footprint(&e.attributes),
    )
}

fn entries_footprint(es: &Vec<SearchEntry>) -> (r: usize)
    ensures
        r == sat(entries_size(es@) as int),
{
    let mut total: usize = 0;
    let mut i: usize = 0;
    while i < es.len()
        invariant
            i <= es@.len(),
            total == sat(entries_size(es@.subrange(0, i as int)) as int),
        decreases es@.len() - i,
    {
        proof {
            let s = es@.subrange(0, i as int + 1);
            assert(s.drop_last() =~= es@.subrange(0, i as int));
            lemma_sat_add(
                entries_size(es@.subrange(0, i as int)) as int,
                entry_size(es@[i as int]) as int,
            );
        }
        total = total.saturating_add(entry_footprint(&es[i]));
        i = i + 1;
    }
    assert(es@.subrange(0, i as int) =~= es@);
    total
}

/// A complete search result as received from the backend, and the instant
/// from which it may no longer be served.
pub struct CachedValue {
    pub valid_until: u64,
    pub entries: Vec<SearchEntry>,
    pub result: LdapResult,
    pub ctrl: Vec<LdapControl>,
}

impl CachedValue {
    pub open spec fn spec_size(self) -> nat {
        result_set_size(self.entries@, self.result, self.ctrl@)
    }

    /// The estimated footprint, clamped to what a `usize` holds.
    pub fn size(&self) -> (r: usize)
        ensures
            r == sat(self.spec_size() as int),
    {
        let n = self.ctrl.len();
        let controls: usize = if n > usize::MAX / CONTROL_OVERHEAD {
            usize::MAX
        } else {
            n * CONTROL_OVERHEAD
        };
        proof {
            lemma_sat_add(
                CACHED_VALUE_OVERHEAD + entries_size(self.entries@),
                self.ctrl@.len() * CONTROL_OVERHEAD,
            );
            lemma_sat_add(CACHED_VALUE_OVERHEAD as int, entries_size(self.entries@) as int);
        }
        CACHED_VALUE_OVERHEAD.saturating_add(entries_footprint(&self.entries)).saturating_add(
            controls,
        )
    }

    /// The same result set, carried in a value of its own.
    pub fn duplicate(&self) -> (r: CachedValue)
        ensures
            same_result_set(r, *self),
            r.valid_until == self.valid_until,
    {
        let mut entries: Vec<SearchEntry> = Vec::new();
        let mut i: usize = 0;
        while i < self.entries.len()
            invariant
                i <= self.entries@.len(),
                entries@.len() == i,
                forall|j: int| 0 <= j < i ==> entry_equal(#[trigger] entries@[j], self.entries@[j]),
            decreases self.entries@.len() - i,
        {
            entries.push(self.entries[i].duplicate());
            i = i + 1;
        }
        CachedValue {
            valid_until: self.valid_until,
            entries,
            result: self.result.duplicate(),
            ctrl: copy_controls(&self.ctrl),
        }
    }
}

/// Two values hold equal entries, result and controls.
pub open spec fn same_result_set(a: CachedValue, b: CachedValue) -> bool {
    &&& entries_equal(a.entries@, b.entries@)
    &&& result_equal(a.result, b.result)
    &&& a.ctrl@ == b.ctrl@
}

proof fn lemma_values_size_equal(a: Seq<Vec<u8>>, b: Seq<Vec<u8>>)
    requires
        a.len() == b.len(),
        forall|i: int| 0 <= i < a.len() ==> #[trigger] a[i]@ == b[i]@,
    ensures
        values_size(a) == values_size(b),
    decreases a.len(),
{
    if a.len() > 0 {
        lemma_values_size_equal(a.drop_last(), b.drop_last());
        assert(a.last()@ == b.last()@);
    }
}

proof fn lemma_attributes_size_equal(a: Seq<PartialAttribute>, b: Seq<PartialAttribute>)
    requires
        a.len() == b.len(),
        forall|i: int| 0 <= i < a.len() ==> crate::message::attribute_equal(#[trigger] a[i], b[i]),
    ensures
        attributes_size(a) == attributes_size(b),
    decreases a.len(),
{
    if a.len() > 0 {
        lemma_attributes_size_equal(a.drop_last(), b.drop_last());
        assert(crate::message::attribute_equal(a.last(), b.last()));
        lemma_values_size_equal(a.last().vals@, b.last().vals@);
    }
}

proof fn lemma_entries_size_equal(a: Seq<SearchEntry>, b: Seq<SearchEntry>)
    requires
        entries_equal(a, b),
    ensures
        entries_size(a) == entries_size(b),
    decreases a.len(),
{
    if a.len() > 0 {
        assert(entries_equal(a.drop_last(), b.drop_last())) by {
            assert forall|i: int| 0 <= i < a.len() - 1 implies entry_equal(
                #[trigger] a.drop_last()[i],
                b.drop_last()[i],
            ) by {
                assert(entry_equal(a[i], b[i]));
            }
        }
        lemma_entries_size_equal(a.drop_last(), b.drop_last());
        assert(entry_equal(a.last(), b.last()));
        lemma_attributes_size_equal(a.last().attributes@, b.last().attributes@);
    }
}

/// The size estimate depends on the entries, result and controls alone: two
/// values that agree on those report the same size, whatever their expiry.
pub proof fn lemma_size_ignores_expiry(a: CachedValue, b: CachedValue)
    requires
        same_result_set(a, b),
    ensures
        a.spec_size() == b.spec_size(),
{
    lemma_entries_size_equal(a.entries@, b.entries@);
}

/// A normalised search: what decides whether two searches share a result.
pub struct CacheKey {
    pub base: String,
    pub scope: SearchScope,
    pub filter: String,
    pub attrs: Vec<String>,
}

pub type KeyView = (Seq<char>, SearchScope, Seq<char>, Seq<Seq<char>>);

pub open spec fn key_view(k: CacheKey) -> KeyView {
    (k.base@, k.scope, k.filter@, k.attrs@.map_values(|a: String| a@))
}

/// The key of a search request: base, filter and requested attributes
/// normalised, scope as given.
pub open spec fn request_key(req: SearchRequest) -> KeyView {
    (
        normalized(req.base@),
        req.scope,
        normalized(req.filter_text@),
        req.attrs@.map_values(|a: String| normalized(a@)),
    )
}

impl CacheKey {
    pub fn from_request(req: &SearchRequest) -> (r: CacheKey)
        ensures
            key_view(r) == request_key(*req),
    {
        let mut attrs: Vec<String> = Vec::new();
        let mut i: usize = 0;
        while i < req.attrs.len()
            invariant
                i <= req.attrs@.len(),
                attrs@.len() == i,
                forall|j: int| 0 <= j < i ==> #[trigger] attrs@[j]@ == normalized(req.attrs@[j]@),
            decreases req.attrs@.len() - i,
        {
            attrs.push(normalize(req.attrs[i].as_str()));
            i = i + 1;
        }
        let r = CacheKey {
            base: normalize(req.base.as_str()),
            scope: req.scope,
            filter: normalize(req.filter_text.as_str()),
            attrs,
        };
        assert(key_view(r).3 =~= request_key(*req).3);
        r
    }

    pub fn same(&self, other: &CacheKey) -> (r: bool)
        ensures
            r == (key_view(*self) == key_view(*other)),
    {
        if self.base != other.base || self.scope != other.scope || self.filter != other.filter {
            return false;
        }
        if self.attrs.len() != other.attrs.len() {
            assert(key_view(*self).3.len() != key_view(*other).3.len());
            return false;
        }
        let mut i: usize = 0;
        while i < self.attrs.len()
            invariant
                i <= self.attrs@.len(),
                self.attrs@.len() == other.attrs@.len(),
                forall|j: int| 0 <= j < i ==> #[trigger] self.attrs@[j]@ == other.attrs@[j]@,
            decreases self.attrs@.len() - i,
        {
            if self.attrs[i] != other.attrs[i] {
                assert(key_view(*self).3[i as int] != key_view(*other).3[i as int]);
                return false;
            }
            i = i + 1;
        }
        assert(key_view(*self).3 =~= key_view(*other).3);
        true
    }
}

/// The cache table, in order of insertion, oldest first.
pub struct ResultCache {
    /// Total estimated size above which older results are evicted.
    pub budget: usize,
    pub slots: Vec<(CacheKey, CachedValue)>,
}

pub open spec fn total_size(slots: Seq<(CacheKey, CachedValue)>) -> nat
    decreases slots.len(),
{
    if slots.len() == 0 {
        0
    } else {
        (total_size(slots.drop_last()) + slots.last().1.spec_size()) as nat
    }
}

/// `slot` is one of `slots`, under another key than `k`.
pub open spec fn came_from(
    slot: (CacheKey, CachedValue),
    slots: Seq<(CacheKey, CachedValue)>,
    k: KeyView,
) -> bool {
    exists|i: int| 0 <= i < slots.len() && slots[i] == slot && key_view(slots[i].0) != k
}

impl ResultCache {
    /// No key is held twice.
    pub open spec fn wf(self) -> bool {
        forall|i: int, j: int|
            0 <= i < self.slots@.len() && 0 <= j < self.slots@.len() && i != j ==> key_view(
                #[trigger] self.slots@[i].0,
            ) != key_view(#[trigger] self.slots@[j].0)
    }

    /// The value held under `k`, if any, fresh or not.
    pub open spec fn holds(self, k: KeyView, v: CachedValue) -> bool {
        exists|i: int|
            0 <= i < self.slots@.len() && key_view(#[trigger] self.slots@[i].0) == k
                && self.slots@[i].1 == v
    }

    /// A result held under `k` is still fresh at `now`.
    pub open spec fn has_fresh(self, k: KeyView, now: u64) -> bool {
        exists|v: CachedValue| #[trigger] self.holds(k, v) && now < v.valid_until
    }

    pub open spec fn has_key(self, k: KeyView) -> bool {
        exists|i: int| 0 <= i < self.slots@.len() && key_view(#[trigger] self.slots@[i].0) == k
    }

    pub fn new(budget: usize) -> (r: ResultCache)
        ensures
            r.wf(),
            r.budget == budget,
            r.slots@.len() == 0,
    {
        ResultCache { budget, slots: Vec::new() }
    }

    fn position(&self, key: &CacheKey) -> (r: Option<usize>)
        requires
            self.wf(),
        ensures
            r matches Some(i) ==> i < self.slots@.len() && key_view(self.slots@[i as int].0)
                == key_view(*key),
            r is None ==> !self.has_key(key_view(*key)),
    {
        let mut i: usize = 0;
        while i < self.slots.len()
            invariant
                i <= self.slots@.len(),
                forall|j: int|
                    0 <= j < i ==> key_view(#[trigger] self.slots@[j].0) != key_view(*key),
            decreases self.slots@.len() - i,
        {
            if self.slots[i].0.same(key) {
                return Some(i);
            }
            i = i + 1;
        }
        None
    }

    /// The result held under `key` while it is fresh: `now` is before its
    /// expiry instant.
    pub fn get(&self, key: &CacheKey, now: u64) -> (r: Option<&CachedValue>)
        requires
            self.wf(),
        ensures
            r matches Some(v) ==> self.holds(key_view(*key), *v) && now < v.valid_until,
            r is None ==> forall|v: CachedValue|
                #![trigger self.holds(key_view(*key), v)]
                self.holds(key_view(*key), v) ==> now >= v.valid_until,
    {
        match self.position(key) {
            Some(i) => {
                if now < self.slots[i].1.valid_until {
                    Some(&self.slots[i].1)
                } else {
                    None
                }
            },
            None => None,
        }
    }

    fn total_footprint(&self) -> (r: usize)
        ensures
            r == sat(total_size(self.slots@) as int),
    {
        let mut total: usize = 0;
        let mut i: usize = 0;
        while i < self.slots.len()
            invariant
                i <= self.slots@.len(),
                total == sat(total_size(self.slots@.subrange(0, i as int)) as int),
            decreases self.slots@.len() - i,
        {
            proof {
                let s = self.slots@.subrange(0, i as int + 1);
                assert(s.drop_last() =~= self.slots@.subrange(0, i as int));
                lemma_sat_add(
                    total_size(self.slots@.subrange(0, i as int)) as int,
                    self.slots@[i as int].1.spec_size() as int,
                );
            }
            total = total.saturating_add(self.slots[i].1.size());
            i = i + 1;
        }
        assert(self.slots@.subrange(0, i as int) =~= self.slots@);
        total
    }

    /// More than one result is held and their total size exceeds the budget,
    /// or is too large to count.
    fn over_budget(&self) -> (r: bool)
        ensures
            r == (self.slots@.len() > 1 && (sat(total_size(self.slots@) as int) > self.budget
                || sat(total_size(self.slots@) as int) == usize::MAX)),
    {
        if self.slots.len() <= 1 {
            return false;
        }
        let t = self.total_footprint();
        t > self.budget || t == usize::MAX
    }

    /// Stores a result set under `key`, fresh until `now + ttl`, in place of
    /// whatever the key held. Older results are then evicted, oldest first,
    /// until the total size is within the budget; the new result is kept.
    pub fn put(&mut self, key: CacheKey, value: CachedValue, now: u64, ttl: u64)
        requires
            old(self).wf(),
            now + ttl <= u64::MAX,
        ensures
            final(self).wf(),
            final(self).budget == old(self).budget,
            final(self).slots@.len() >= 1,
            final(self).slots@.last() == (
            key,
            CachedValue { valid_until: (now + ttl) as u64, ..value },
            ),
            forall|j: int|
                0 <= j < final(self).slots@.len() - 1 ==> came_from(#[trigger] final(self).slots@[j], old(self).slots@, key_view(key)),
            total_size(final(self).slots@) <= final(self).budget || final(self).slots@.len()
                == 1,
    {
        let ghost old_slots = self.slots@;
        let ghost kv = key_view(key);
        match self.position(&key) {
            Some(i) => {
                self.slots.remove(i);
                assert forall|j: int| 0 <= j < self.slots@.len() implies (if j < i {
                    self.slots@[j] == old_slots[j]
                } else {
                    self.slots@[j] == old_slots[j + 1]
                }) by {}
            },
            None => {},
        }
        let ghost mid = self.slots@;
        assert forall|j: int| 0 <= j < mid.len() implies came_from(#[trigger] mid[j], old_slots, kv) by {
            if old_slots.len() == mid.len() {
                assert(old_slots[j] == mid[j]);
            } else {
                let k = choose|k: int|
                    0 <= k < old_slots.len() && key_view(old_slots[k].0) == kv;
                if j < k {
                    assert(old_slots[j] == mid[j]);
                } else {
                    assert(old_slots[j + 1] == mid[j]);
                }
            }
        }
        let stored = CachedValue { valid_until: now + ttl, ..value };
        self.slots.push((key, stored));
        assert forall|j: int| 0 <= j < self.slots@.len() - 1 implies came_from(#[trigger] self.slots@[j], old_slots, kv) by {
            assert(self.slots@[j] == mid[j]);
        }
        assert forall|a: int, b: int|
            0 <= a < self.slots@.len() && 0 <= b < self.slots@.len() && a != b implies key_view(
            #[trigger] self.slots@[a].0,
        ) != key_view(#[trigger] self.slots@[b].0) by {
            if a < mid.len() {
                assert(self.slots@[a] == mid[a]);
            }
            if b < mid.len() {
                assert(self.slots@[b] == mid[b]);
            }
        }
        while self.over_budget()
            invariant
                self.wf(),
                self.budget == old(self).budget,
                self.slots@.len() >= 1,
                self.slots@.last() == (key, stored),
                kv == key_view(key),
                old_slots == old(self).slots@,
                forall|j: int|
                    0 <= j < self.slots@.len() - 1 ==> came_from(#[trigger] self.slots@[j], old_slots, kv),
            decreases self.slots@.len(),
        {
            let ghost before = self.slots@;
            self.slots.remove(0);
            assert forall|j: int| 0 <= j < self.slots@.len() - 1 implies came_from(#[trigger] self.slots@[j], old_slots, kv) by {
                assert(before[j + 1] == self.slots@[j]);
            }
        }
    }
}

/// A result set just stored by `put` at `now` with `ttl` is what a lookup
/// under the same key finds before `now + ttl`: the same entries, result and
/// controls.
pub proof fn lemma_put_then_get(
    c: ResultCache,
    key: CacheKey,
    value: CachedValue,
    now: u64,
    ttl: u64,
    later: u64,
)
    requires
        c.wf(),
        now + ttl <= u64::MAX,
        c.slots@.len() >= 1,
        c.slots@.last() == (key, CachedValue { valid_until: (now + ttl) as u64, ..value }),
        later < now + ttl,
    ensures
        c.has_fresh(key_view(key), later),
        forall|v: CachedValue|
            #[trigger] c.holds(key_view(key), v) ==> v.entries == value.entries && v.result
                == value.result && v.ctrl == value.ctrl && later < v.valid_until,
{
    let last = c.slots@.len() - 1;
    assert(key_view(c.slots@[last].0) == key_view(key));
    assert(c.holds(key_view(key), c.slots@[last].1));
    assert forall|v: CachedValue| #[trigger] c.holds(key_view(key), v) implies v
        == c.slots@[last].1 by {
        let i = choose|i: int|
            0 <= i < c.slots@.len() && key_view(#[trigger] c.slots@[i].0) == key_view(key)
                && c.slots@[i].1 == v;
        if i != last {
            assert(key_view(c.slots@[i].0) != key_view(c.slots@[last].0));
        }
    }
}

/// A result past its expiry instant is never served: once one result held
/// under a key has expired at `now`, no fresh one is held under that key.
pub proof fn lemma_expired_not_served(c: ResultCache, k: KeyView, v: CachedValue, now: u64)
    requires
        c.wf(),
        c.holds(k, v),
        now >= v.valid_until,
    ensures
        !c.has_fresh(k, now),
{
    assert forall|w: CachedValue| #[trigger] c.holds(k, w) implies w == v by {
        let i = choose|i: int|
            0 <= i < c.slots@.len() && key_view(#[trigger] c.slots@[i].0) == k && c.slots@[i].1
                == v;
        let j = choose|j: int|
            0 <= j < c.slots@.len() && key_view(#[trigger] c.slots@[j].0) == k && c.slots@[j].1
                == w;
        if i != j {
            assert(key_view(c.slots@[i].0) != key_view(c.slots@[j].0));
        }
    }
}

} // verus!
