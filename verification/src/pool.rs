//! Prepared sandboxes, waiting to be used once.

use vstd::prelude::*;

use crate::table::TableKey;
use crate::text::same_text;
use crate::time::Duration;

verus! {

/// What a prepared sandbox was prepared for.
#[derive(Debug)]
pub struct PreparedKey {
    pub image_digest: String,
    pub workspace_digest: Option<String>,
    pub policy_digest: String,
}

pub struct PreparedKeyView {
    pub image_digest: Seq<char>,
    pub workspace_digest: Option<Seq<char>>,
    pub policy_digest: Seq<char>,
}

impl View for PreparedKey {
    type V = PreparedKeyView;

    open spec fn view(&self) -> PreparedKeyView {
        PreparedKeyView {
            image_digest: self.image_digest@,
            workspace_digest: match self.workspace_digest {
                Some(digest) => Some(digest@),
                None => None,
            },
            policy_digest: self.policy_digest@,
        }
    }
}

impl TableKey for PreparedKey {
    fn same(&self, other: &PreparedKey) -> (same: bool) {
        let workspace: bool = match (&self.workspace_digest, &other.workspace_digest) {
            (Some(own), Some(given)) => same_text(own.as_str(), given.as_str()),
            (None, None) => true,
            _ => false,
        };
        workspace && same_text(self.image_digest.as_str(), other.image_digest.as_str())
            && same_text(self.policy_digest.as_str(), other.policy_digest.as_str())
    }
}

impl<'a> TableKey for &'a str {
    fn same(&self, other: &&'a str) -> (same: bool) {
        same_text(*self, *other)
    }
}

#[derive(Debug, Clone, Copy, PartialEq, Eq, Structural)]
pub struct PoolConfig {
    pub max_size: usize,
    pub idle_ttl: Duration,
}

impl Default for PoolConfig {
    fn default() -> (config: PoolConfig)
        ensures
            config.max_size == 4,
            config.idle_ttl@ == 300 * crate::time::NANOS_PER_SEC,
    {
        PoolConfig { max_size: 4, idle_ttl: Duration::from_secs(5 * 60) }
    }
}

#[derive(Debug, Clone, Copy, PartialEq, Eq, Structural)]
pub enum PoolError {
    ZeroCapacity,
    ZeroTtl,
    Full(usize),
}

impl PoolError {
    pub open spec fn message_spec(self) -> Seq<char> {
        match self {
            PoolError::ZeroCapacity => "prepared pool capacity must be non-zero"@,
            PoolError::ZeroTtl => "prepared pool idle TTL must be non-zero"@,
            PoolError::Full(capacity) => "prepared pool is full (capacity "@
                + crate::text::decimal_text(capacity as nat) + ")"@,
        }
    }

    pub fn message(&self) -> (text: String)
        ensures
            text@ == self.message_spec(),
    {
        match self {
            PoolError::ZeroCapacity => "prepared pool capacity must be non-zero".to_owned(),
            PoolError::ZeroTtl => "prepared pool idle TTL must be non-zero".to_owned(),
            PoolError::Full(capacity) => crate::text::join3(
                "prepared pool is full (capacity ",
                crate::text::decimal(*capacity as u64).as_str(),
                ")",
            ),
        }
    }
}

#[derive(Debug, Clone, Copy, PartialEq, Eq, Structural)]
pub struct PoolStats {
    pub ready: usize,
    pub keys: usize,
    pub capacity: usize,
}

/// A prepared sandbox that has been taken out of its pool.
#[derive(Debug)]
pub struct PreparedLease<V> {
    value: V,
}

impl<V> PreparedLease<V> {
    pub closed spec fn held(self) -> V {
        self.value
    }

    pub fn get(&self) -> (value: &V)
        ensures
            *value == self.held(),
    {
        &self.value
    }

    pub fn into_inner(self) -> (value: V)
        ensures
            value == self.held(),
    {
        self.value
    }
}

struct PreparedUnit<K, V> {
    key: K,
    value: V,
    expires_at: Duration,
}

/// A unit that waits in a pool.
pub struct UnitView<K, V> {
    pub key: K,
    pub value: V,
    pub expires_at: int,
}

/// Units in the order in which they were put in.
pub struct PreparedPool<K: TableKey, V> {
    config: PoolConfig,
    units: Vec<PreparedUnit<K, V>>,
}

pub struct PoolView<K, V> {
    pub config: PoolConfig,
    pub units: Seq<UnitView<K, V>>,
}

spec fn unit_view<K: TableKey, V>(unit: PreparedUnit<K, V>) -> UnitView<K::V, V> {
    UnitView { key: unit.key@, value: unit.value, expires_at: unit.expires_at@ }
}

spec fn unit_views<K: TableKey, V>(units: Seq<PreparedUnit<K, V>>) -> Seq<UnitView<K::V, V>> {
    units.map_values(|unit: PreparedUnit<K, V>| unit_view(unit))
}

impl<K: TableKey, V> View for PreparedPool<K, V> {
    type V = PoolView<K::V, V>;

    closed spec fn view(&self) -> PoolView<K::V, V> {
        PoolView { config: self.config, units: unit_views(self.units@) }
    }
}

/// The units that have not expired, in their order.
pub open spec fn unexpired<K, V>(units: Seq<UnitView<K, V>>, now: int) -> Seq<UnitView<K, V>>
    decreases units.len(),
{
    if units.len() == 0 {
        units
    } else {
        let earlier = unexpired(units.drop_last(), now);
        if units.last().expires_at > now {
            earlier.push(units.last())
        } else {
            earlier
        }
    }
}

/// The position of the first unit with a key, or the number of units where there is none.
pub open spec fn first_with_key<K, V>(units: Seq<UnitView<K, V>>, key: K, from: int) -> int
    decreases units.len() - from,
{
    if 0 <= from < units.len() && units[from].key != key {
        first_with_key(units, key, from + 1)
    } else {
        from
    }
}

/// How many units have a key.
pub open spec fn count_with_key<K, V>(units: Seq<UnitView<K, V>>, key: K) -> nat
    decreases units.len(),
{
    if units.len() == 0 {
        0
    } else {
        count_with_key(units.drop_last(), key) + (if units.last().key == key {
            1nat
        } else {
            0
        })
    }
}

/// How many different keys the units have.
pub open spec fn count_keys<K, V>(units: Seq<UnitView<K, V>>) -> nat
    decreases units.len(),
{
    if units.len() == 0 {
        0
    } else {
        count_keys(units.drop_last()) + (if count_with_key(units.drop_last(), units.last().key)
            == 0 {
            1nat
        } else {
            0
        })
    }
}

impl<K, V> PoolView<K, V> {
    /// The pool at a point in time.
    pub open spec fn pruned(self, now: int) -> PoolView<K, V> {
        PoolView { config: self.config, units: unexpired(self.units, now) }
    }

    /// The pool without the first unit of a key.
    pub open spec fn without_first(self, key: K) -> PoolView<K, V> {
        PoolView {
            config: self.config,
            units: self.units.remove(first_with_key(self.units, key, 0)),
        }
    }

    /// The pool with one more unit; none where it is full.
    pub open spec fn filled(self, key: K, value: V, now: int) -> Option<PoolView<K, V>> {
        let pruned = self.pruned(now);
        if pruned.units.len() < pruned.config.max_size {
            Some(
                PoolView {
                    config: pruned.config,
                    units: pruned.units.push(
                        UnitView {
                            key,
                            value,
                            expires_at: crate::time::saturating_nanos(
                                now,
                                pruned.config.idle_ttl@,
                            ),
                        },
                    ),
                },
            )
        } else {
            None
        }
    }

    /// What a lease under a key gives, if anything, and the pool behind it.
    pub open spec fn leased(self, key: K, now: int) -> (Option<V>, PoolView<K, V>) {
        let pruned = self.pruned(now);
        if pruned.has_unit(key) {
            (
                Some(pruned.units[first_with_key(pruned.units, key, 0)].value),
                pruned.without_first(key),
            )
        } else {
            (None, pruned)
        }
    }

    /// How many units are missing under a key to reach a target.
    pub open spec fn lacking(self, key: K, target: int, now: int) -> int {
        let current = count_with_key(self.pruned(now).units, key);
        let bounded = if target <= self.config.max_size {
            target
        } else {
            self.config.max_size as int
        };
        if current < bounded {
            bounded - current
        } else {
            0
        }
    }

    pub open spec fn has_unit(self, key: K) -> bool {
        first_with_key(self.units, key, 0) < self.units.len()
    }
}

impl<K: TableKey, V> PreparedPool<K, V> {
    /// There is room for a unit and time to use it, and no more units than there is room for.
    pub open spec fn wf(self) -> bool {
        &&& self@.config.max_size > 0
        &&& self@.config.idle_ttl@ > 0
        &&& self@.units.len() <= self@.config.max_size
    }

    pub fn new(config: PoolConfig) -> (made: Result<PreparedPool<K, V>, PoolError>)
        ensures
            match made {
                Ok(pool) => pool.wf() && pool@.config == config && pool@.units.len() == 0,
                Err(PoolError::ZeroCapacity) => config.max_size == 0,
                Err(PoolError::ZeroTtl) => config.max_size != 0 && config.idle_ttl@ == 0,
                Err(PoolError::Full(_)) => false,
            },
    {
        if config.max_size == 0 {
            return Err(PoolError::ZeroCapacity);
        }
        if config.idle_ttl.is_zero() {
            return Err(PoolError::ZeroTtl);
        }
        Ok(PreparedPool { config, units: Vec::new() })
    }

    /// Drops the units that have expired.
    fn prune(&mut self, now: Duration)
        ensures
            final(self)@ == old(self)@.pruned(now@),
            final(self)@.units.len() <= old(self)@.units.len(),
    {
        let ghost before = unit_views(self.units@);
        let mut rest: Vec<PreparedUnit<K, V>> = Vec::new();
        std::mem::swap(&mut rest, &mut self.units);
        let mut kept: Vec<PreparedUnit<K, V>> = Vec::new();
        let mut backwards: Vec<PreparedUnit<K, V>> = Vec::new();
        while rest.len() > 0
            invariant
                unit_views(rest@) + unit_views(backwards@).reverse() == before,
            decreases rest@.len(),
        {
            let ghost rest_before = rest@;
            let ghost back_before = backwards@;
            match rest.pop() {
                Some(unit) => {
                    backwards.push(unit);
                    proof {
                        let moved = unit_view(unit);
                        assert(unit_views(rest_before) =~= unit_views(rest@).push(moved));
                        assert(unit_views(backwards@) =~= unit_views(back_before).push(moved));
                        assert(unit_views(backwards@).reverse() =~= seq![moved] + unit_views(
                            back_before,
                        ).reverse());
                        assert(unit_views(rest@) + unit_views(backwards@).reverse() =~= unit_views(
                            rest_before,
                        ) + unit_views(back_before).reverse());
                    }
                },
                None => {},
            }
        }
        assert(unit_views(backwards@).reverse() =~= before);
        assert(before.subrange(0, 0) =~= Seq::empty());
        assert(unit_views(kept@) =~= Seq::empty());
        while backwards.len() > 0
            invariant
                backwards@.len() <= before.len(),
                unit_views(backwards@).reverse() == before.subrange(
                    before.len() - backwards@.len(),
                    before.len() as int,
                ),
                unit_views(kept@) == unexpired(
                    before.subrange(0, before.len() - backwards@.len()),
                    now@,
                ),
                kept@.len() <= before.len() - backwards@.len(),
            decreases backwards@.len(),
        {
            let ghost back_before = backwards@;
            let ghost kept_before = kept@;
            let ghost at = before.len() - backwards@.len();
            match backwards.pop() {
                Some(unit) => {
                    proof {
                        let moved = unit_view(unit);
                        assert(unit_views(back_before) =~= unit_views(backwards@).push(moved));
                        assert(unit_views(back_before).reverse()[0] == moved);
                        assert(before[at] == moved);
                        assert(unit_views(backwards@).reverse() =~= before.subrange(
                            at + 1,
                            before.len() as int,
                        )) by {
                            assert(unit_views(back_before).reverse() =~= seq![moved] + unit_views(
                                backwards@,
                            ).reverse());
                            assert(before.subrange(at + 1, before.len() as int) =~= before.subrange(
                                at,
                                before.len() as int,
                            ).subrange(1, before.len() - at));
                        }
                        assert(before.subrange(0, at + 1).drop_last() =~= before.subrange(0, at));
                        assert(before.subrange(0, at + 1).last() == moved);
                    }
                    if unit.expires_at.exceeds(&now) {
                        kept.push(unit);
                        assert(unit_views(kept@) =~= unit_views(kept_before).push(
                            unit_view(unit),
                        ));
                    }
                },
                None => {},
            }
        }
        assert(before.subrange(0, before.len() as int) =~= before);
        self.units = kept;
    }

    /// Puts a unit in, to be used within the idle time from now.
    pub fn put(&mut self, key: K, value: V, now: Duration) -> (done: Result<(), PoolError>)
        requires
            old(self).wf(),
        ensures
            final(self).wf(),
            match old(self)@.filled(key@, value, now@) {
                Some(after) => done is Ok && final(self)@ == after,
                None => done is Err && final(self)@ == old(self)@.pruned(now@),
            },
            ({
                let pruned = old(self)@.pruned(now@);
                match done {
                    Ok(()) => {
                        &&& pruned.units.len() < pruned.config.max_size
                        &&& final(self)@ == (PoolView {
                            config: pruned.config,
                            units: pruned.units.push(
                                UnitView {
                                    key: key@,
                                    value,
                                    expires_at: crate::time::saturating_nanos(
                                        now@,
                                        pruned.config.idle_ttl@,
                                    ),
                                },
                            ),
                        })
                    },
                    Err(error) => {
                        &&& pruned.units.len() == pruned.config.max_size
                        &&& error == PoolError::Full(pruned.config.max_size)
                        &&& final(self)@ == pruned
                    },
                }
            }),
    {
        self.prune(now);
        if self.units.len() >= self.config.max_size {
            return Err(PoolError::Full(self.config.max_size));
        }
        let ghost before = self.units@;
        let unit = PreparedUnit {
            key,
            value,
            expires_at: now.saturating_add(self.config.idle_ttl),
        };
        let ghost added = unit_view(unit);
        self.units.push(unit);
        assert(unit_views(self.units@) =~= unit_views(before).push(added));
        Ok(())
    }

    fn find(&self, key: &K) -> (at: usize)
        ensures
            at == first_with_key(self@.units, key@, 0),
            at <= self@.units.len(),
            self@.units.len() == self.units@.len(),
            at < self.units@.len() ==> self.units@[at as int].key@ == key@,
    {
        let ghost units = self@.units;
        let mut at: usize = 0;
        while at < self.units.len() && !self.units[at].key.same(key)
            invariant
                at <= units.len(),
                units == unit_views(self.units@),
                first_with_key(units, key@, 0) == first_with_key(units, key@, at as int),
            decreases units.len() - at,
        {
            assert(units[at as int].key == self.units@[at as int].key@);
            at += 1;
        }
        proof {
            if at < units.len() {
                assert(units[at as int].key == self.units@[at as int].key@);
            }
        }
        at
    }

    /// Takes out the unit that has waited longest under a key.
    pub fn lease(&mut self, key: &K, now: Duration) -> (lease: Option<PreparedLease<V>>)
        requires
            old(self).wf(),
        ensures
            final(self).wf(),
            final(self)@ == old(self)@.leased(key@, now@).1,
            match lease {
                Some(taken) => old(self)@.leased(key@, now@).0 == Some(taken.held()),
                None => old(self)@.leased(key@, now@).0 is None,
            },
            ({
                let pruned = old(self)@.pruned(now@);
                match lease {
                    Some(taken) => {
                        &&& pruned.has_unit(key@)
                        &&& taken.held() == pruned.units[first_with_key(
                            pruned.units,
                            key@,
                            0,
                        )].value
                        &&& final(self)@ == pruned.without_first(key@)
                    },
                    None => !pruned.has_unit(key@) && final(self)@ == pruned,
                }
            }),
    {
        self.prune(now);
        let at: usize = self.find(key);
        if at >= self.units.len() {
            return None;
        }
        let ghost before = self.units@;
        let unit = self.units.remove(at);
        assert(unit_views(self.units@) =~= unit_views(before).remove(at as int));
        assert(unit_views(before)[at as int] == unit_view(unit));
        Some(PreparedLease { value: unit.value })
    }

    fn count(&self, key: &K, upto: usize) -> (count: usize)
        requires
            upto <= self.units@.len(),
        ensures
            count == count_with_key(self@.units.subrange(0, upto as int), key@),
            count <= upto,
    {
        let ghost units = self@.units;
        let mut count: usize = 0;
        let mut i: usize = 0;
        assert(units.subrange(0, 0) =~= Seq::empty());
        while i < upto
            invariant
                i <= upto <= self.units@.len(),
                units == unit_views(self.units@),
                count == count_with_key(units.subrange(0, i as int), key@),
                count <= i,
            decreases upto - i,
        {
            proof {
                let longer = units.subrange(0, i + 1);
                assert(longer.drop_last() =~= units.subrange(0, i as int));
                assert(longer.last() == unit_view(self.units@[i as int]));
            }
            if self.units[i].key.same(key) {
                count += 1;
            }
            i += 1;
        }
        count
    }

    /// How many units wait, and under how many keys.
    pub fn stats(&mut self, now: Duration) -> (stats: PoolStats)
        requires
            old(self).wf(),
        ensures
            final(self).wf(),
            final(self)@ == old(self)@.pruned(now@),
            stats.ready == final(self)@.units.len(),
            stats.keys == count_keys(final(self)@.units),
            stats.capacity == final(self)@.config.max_size,
    {
        self.prune(now);
        let ghost units = self@.units;
        let mut keys: usize = 0;
        let mut i: usize = 0;
        assert(units.subrange(0, 0) =~= Seq::empty());
        while i < self.units.len()
            invariant
                i <= self.units@.len(),
                units == unit_views(self.units@),
                units == self@.units,
                keys == count_keys(units.subrange(0, i as int)),
                keys <= i,
            decreases self.units@.len() - i,
        {
            proof {
                let longer = units.subrange(0, i + 1);
                assert(longer.drop_last() =~= units.subrange(0, i as int));
                assert(longer.last() == unit_view(self.units@[i as int]));
            }
            if self.count(&self.units[i].key, i) == 0 {
                keys += 1;
            }
            i += 1;
        }
        assert(units.subrange(0, i as int) =~= units);
        PoolStats { ready: self.units.len(), keys, capacity: self.config.max_size }
    }

    /// How many units are missing under a key to reach a target, which the capacity bounds.
    pub fn missing(&mut self, key: &K, target: usize, now: Duration) -> (missing: usize)
        requires
            old(self).wf(),
        ensures
            final(self).wf(),
            missing == old(self)@.lacking(key@, target as int, now@),
            final(self)@ == old(self)@.pruned(now@),
            ({
                let current = count_with_key(final(self)@.units, key@);
                let bounded = if target <= final(self)@.config.max_size {
                    target
                } else {
                    final(self)@.config.max_size
                };
                missing == (if current < bounded {
                    bounded - current
                } else {
                    0
                })
            }),
    {
        self.prune(now);
        let current: usize = self.count(key, self.units.len());
        assert(self@.units.subrange(0, self.units@.len() as int) =~= self@.units);
        let bounded: usize = if target <= self.config.max_size {
            target
        } else {
            self.config.max_size
        };
        if current < bounded {
            bounded - current
        } else {
            0
        }
    }

    /// Puts freshly made units in, one after the other, until the pool is full; tells how many
    /// went in.
    pub fn replenish(&mut self, fresh: Vec<(K, V)>, now: Duration) -> (added: usize)
        requires
            old(self).wf(),
        ensures
            final(self).wf(),
            ({
                let pruned = old(self)@.pruned(now@);
                let room = pruned.config.max_size - pruned.units.len();
                &&& added == (if fresh@.len() <= room {
                    fresh@.len() as int
                } else {
                    room
                })
                &&& final(self)@.config == pruned.config
                &&& final(self)@.units == pruned.units + Seq::new(
                    added as nat,
                    |i: int|
                        UnitView {
                            key: fresh@[i].0@,
                            value: fresh@[i].1,
                            expires_at: crate::time::saturating_nanos(
                                now@,
                                pruned.config.idle_ttl@,
                            ),
                        },
                )
            }),
    {
        self.prune(now);
        let ghost pruned = self@;
        let ghost all = fresh@;
        let ghost expires_at = crate::time::saturating_nanos(now@, pruned.config.idle_ttl@);
        let mut waiting: Vec<(K, V)> = Vec::new();
        let mut rest = fresh;
        while rest.len() > 0
            invariant
                rest@.len() + waiting@.len() == all.len(),
                forall|i: int| 0 <= i < rest@.len() ==> rest@[i] == all[i],
                forall|i: int|
                    0 <= i < waiting@.len() ==> #[trigger] waiting@[i] == all[all.len() - 1 - i],
            decreases rest@.len(),
        {
            match rest.pop() {
                Some(pair) => {
                    waiting.push(pair);
                },
                None => {},
            }
        }
        let mut added: usize = 0;
        let ghost room = pruned.config.max_size - pruned.units.len();
        while waiting.len() > 0 && self.units.len() < self.config.max_size
            invariant
                self@.config == pruned.config,
                self.config == pruned.config,
                pruned.units.len() <= pruned.config.max_size,
                self.units@.len() == pruned.units.len() + added,
                self.units@.len() <= pruned.config.max_size,
                expires_at == crate::time::saturating_nanos(now@, pruned.config.idle_ttl@),
                waiting@.len() + added == all.len(),
                forall|i: int|
                    0 <= i < waiting@.len() ==> #[trigger] waiting@[i] == all[all.len() - 1 - i],
                self@.units == pruned.units + Seq::new(
                    added as nat,
                    |i: int| UnitView { key: all[i].0@, value: all[i].1, expires_at },
                ),
            decreases waiting@.len(),
        {
            let ghost before = self.units@;
            let ghost at = added as int;
            match waiting.pop() {
                Some((key, value)) => {
                    let unit = PreparedUnit {
                        key,
                        value,
                        expires_at: now.saturating_add(self.config.idle_ttl),
                    };
                    let ghost made = unit_view(unit);
                    self.units.push(unit);
                    added += 1;
                    proof {
                        assert(unit_views(self.units@) =~= unit_views(before).push(made));
                        assert(self@.units =~= pruned.units + Seq::new(
                            added as nat,
                            |i: int| UnitView { key: all[i].0@, value: all[i].1, expires_at },
                        ));
                    }
                },
                None => {},
            }
        }
        added
    }
}

proof fn lemma_first_with_key<K, V>(units: Seq<UnitView<K, V>>, key: K, from: int)
    requires
        0 <= from <= units.len(),
    ensures
        from <= first_with_key(units, key, from) <= units.len(),
        first_with_key(units, key, from) < units.len() ==> units[first_with_key(
            units,
            key,
            from,
        )].key == key,
        forall|i: int| from <= i < first_with_key(units, key, from) ==> units[i].key != key,
    decreases units.len() - from,
{
    if from < units.len() && units[from].key != key {
        lemma_first_with_key(units, key, from + 1);
    }
}

/// A lease never crosses keys: what is taken out was put in under the key that was asked for.
pub proof fn law_lease_never_crosses_keys<K, V>(pool: PoolView<K, V>, key: K)
    requires
        pool.has_unit(key),
    ensures
        pool.units[first_with_key(pool.units, key, 0)].key == key,
{
    lemma_first_with_key(pool.units, key, 0);
}

proof fn lemma_count_remove<K, V>(units: Seq<UnitView<K, V>>, at: int, key: K)
    requires
        0 <= at < units.len(),
    ensures
        count_with_key(units, key) == count_with_key(units.remove(at), key) + (if units[at].key
            == key {
            1nat
        } else {
            0
        }),
    decreases units.len(),
{
    let removed = units.remove(at);
    if at == units.len() - 1 {
        assert(removed =~= units.drop_last());
    } else {
        assert(removed.drop_last() =~= units.drop_last().remove(at));
        assert(removed.last() == units.last());
        lemma_count_remove(units.drop_last(), at, key);
    }
}

/// A unit is used once: a lease leaves one unit fewer under its key and as many as before under
/// every other key.
pub proof fn law_lease_is_single_use<K, V>(pool: PoolView<K, V>, key: K, other: K)
    requires
        pool.has_unit(key),
    ensures
        pool.without_first(key).units.len() == pool.units.len() - 1,
        count_with_key(pool.without_first(key).units, key) == count_with_key(pool.units, key) - 1,
        other != key ==> count_with_key(pool.without_first(key).units, other) == count_with_key(
            pool.units,
            other,
        ),
{
    lemma_first_with_key(pool.units, key, 0);
    let at = first_with_key(pool.units, key, 0);
    lemma_count_remove(pool.units, at, key);
    lemma_count_remove(pool.units, at, other);
}

/// What is left at a point in time has not expired.
pub proof fn law_expired_units_are_gone<K, V>(units: Seq<UnitView<K, V>>, now: int)
    ensures
        forall|i: int|
            0 <= i < unexpired(units, now).len() ==> (#[trigger] unexpired(
                units,
                now,
            )[i]).expires_at > now,
    decreases units.len(),
{
    if units.len() > 0 {
        law_expired_units_are_gone(units.drop_last(), now);
        let earlier = unexpired(units.drop_last(), now);
        assert forall|i: int| 0 <= i < unexpired(units, now).len() implies (#[trigger] unexpired(
            units,
            now,
        )[i]).expires_at > now by {
            if i < earlier.len() {
                assert(unexpired(units, now)[i] == earlier[i]);
            }
        }
    }
}

} // verus!
