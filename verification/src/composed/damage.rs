//! Mutable gameplay state of a live composed enemy: shared health pools,
//! per-part durability and breakage, and the routing of part damage.

use super::cache::CompositionAtlasCache;
use super::model::{CachedPart, HealthPool, clone_strings};
use crate::keyed::{Keyed, find_keyed, find_keyed_str, first_keyed, opt_usize_int, str_eq};
use vstd::prelude::*;

verus! {

/// Part-local hit blink: alternating inverted and regular phases.
#[derive(Clone, Copy, Debug)]
pub struct PartHitBlinkState {
    pub phase_started_at_ms: u64,
    pub showing_invert: bool,
    pub remaining_invert_cycles: u8,
}

/// Mutable gameplay state for one semantic part instance.
#[derive(Debug)]
pub struct PartGameplayState {
    pub current_durability: u32,
    pub max_durability: u32,
    pub breakable: bool,
    pub broken: bool,
    /// Whether this part should be rendered.
    pub visible: bool,
    /// Active part-local hit blink (runtime presentation only).
    pub hit_blink: Option<PartHitBlinkState>,
    /// Merged semantic tags, copied at load time.
    pub tags: Vec<String>,
}

/// The state of one part, under its semantic part id.
#[derive(Debug)]
pub struct PartEntry {
    pub id: String,
    pub state: PartGameplayState,
}

impl Keyed for PartEntry {
    open spec fn key_view(&self) -> Seq<char> {
        self.id@
    }

    fn key(&self) -> (r: &String) {
        &self.id
    }
}

/// Mutable per-part gameplay state for a live composed enemy.
///
/// Part ids are the gameplay key; sprite ids never own part state.
#[derive(Debug)]
pub struct ComposedPartStates {
    pub parts: Vec<PartEntry>,
}

/// Mutable gameplay health pools for a live composed enemy.
#[derive(Debug)]
pub struct ComposedHealthPools {
    pub pools: Vec<HealthPool>,
}

/// Contents of a part state, with its tags by value.
pub struct PartStateView {
    pub current_durability: u32,
    pub max_durability: u32,
    pub breakable: bool,
    pub broken: bool,
    pub visible: bool,
    pub hit_blink: Option<PartHitBlinkState>,
    pub tags: Seq<String>,
}

impl View for PartGameplayState {
    type V = PartStateView;

    open spec fn view(&self) -> PartStateView {
        PartStateView {
            current_durability: self.current_durability,
            max_durability: self.max_durability,
            breakable: self.breakable,
            broken: self.broken,
            visible: self.visible,
            hit_blink: self.hit_blink,
            tags: self.tags@,
        }
    }
}

pub open spec fn entries_view(s: Seq<PartEntry>) -> Seq<(Seq<char>, PartStateView)> {
    s.map_values(|e: PartEntry| (e.id@, e.state@))
}

pub open spec fn pools_view(s: Seq<HealthPool>) -> Seq<(Seq<char>, u32)> {
    s.map_values(|p: HealthPool| (p.id@, p.health))
}

/// Parts that carry runtime state: targetable ones and those with durability.
pub open spec fn has_runtime_state(p: CachedPart) -> bool {
    p.gameplay.targetable || p.gameplay.durability is Some
}

/// Fresh state of a part: full durability (0 when none is authored),
/// intact, visible, not blinking.
pub open spec fn initial_state(p: CachedPart) -> PartStateView {
    let durability = match p.gameplay.durability {
        Some(d) => d,
        None => 0,
    };
    PartStateView {
        current_durability: durability,
        max_durability: durability,
        breakable: p.gameplay.breakable,
        broken: false,
        visible: true,
        hit_blink: None,
        tags: p.tags@,
    }
}

/// Runtime state entries for every stateful part, in cache order.
pub open spec fn initial_entries(parts: Seq<CachedPart>) -> Seq<(Seq<char>, PartStateView)>
    decreases parts.len(),
{
    if parts.len() == 0 {
        Seq::empty()
    } else {
        let prefix = initial_entries(parts.drop_last());
        if has_runtime_state(parts.last()) {
            prefix.push((parts.last().id@, initial_state(parts.last())))
        } else {
            prefix
        }
    }
}

impl PartGameplayState {
    /// Whether any of the given tags is one of this part's semantic tags.
    pub open spec fn spec_has_any_tag(&self, tags: Seq<&str>) -> bool {
        exists|i: int, j: int|
            0 <= i < tags.len() && 0 <= j < self.tags@.len() && (#[trigger] tags[i])@
                == (#[trigger] self.tags@[j])@
    }

    /// Returns `true` if any of the given tags matches this part's semantic tags.
    pub fn has_any_tag(&self, tags: &[&str]) -> (r: bool)
        ensures
            r == self.spec_has_any_tag(tags@),
    {
        let n = tags.len();
        for i in 0..n
            invariant
                n == tags@.len(),
                forall|a: int, b: int|
                    0 <= a < i && 0 <= b < self.tags@.len() ==> (#[trigger] tags@[a])@ != (
                    #[trigger] self.tags@[b])@,
        {
            let m = self.tags.len();
            for j in 0..m
                invariant
                    m == self.tags@.len(),
                    n == tags@.len(),
                    i < n,
                    forall|a: int, b: int|
                        0 <= a < i && 0 <= b < self.tags@.len() ==> (#[trigger] tags@[a])@ != (
                        #[trigger] self.tags@[b])@,
                    forall|b: int| 0 <= b < j ==> tags@[i as int]@ != (#[trigger] self.tags@[b])@,
            {
                if str_eq(tags[i], self.tags[j].as_str()) {
                    return true;
                }
            }
        }
        false
    }
}

impl ComposedPartStates {
    /// Fresh per-part state for every part that is targetable or has durability.
    pub fn from_cache(cache: &CompositionAtlasCache) -> (r: ComposedPartStates)
        ensures
            entries_view(r.parts@) == initial_entries(cache.parts@),
    {
        let mut out: Vec<PartEntry> = Vec::new();
        let n = cache.parts.len();
        for i in 0..n
            invariant
                n == cache.parts.len(),
                entries_view(out@) == initial_entries(cache.parts@.take(i as int)),
        {
            let part = &cache.parts[i];
            assert(cache.parts@.take(i + 1).drop_last() =~= cache.parts@.take(i as int));
            if part.gameplay.targetable || part.gameplay.durability.is_some() {
                let durability = match part.gameplay.durability {
                    Some(d) => d,
                    None => 0,
                };
                out.push(
                    PartEntry {
                        id: part.id.clone(),
                        state: PartGameplayState {
                            current_durability: durability,
                            max_durability: durability,
                            breakable: part.gameplay.breakable,
                            broken: false,
                            visible: true,
                            hit_blink: None,
                            tags: clone_strings(&part.tags),
                        },
                    },
                );
                assert(entries_view(out@) =~= initial_entries(cache.parts@.take(i as int)).push(
                    (part.id@, initial_state(*part)),
                ));
            }
        }
        assert(cache.parts@.take(n as int) =~= cache.parts@);
        ComposedPartStates { parts: out }
    }

    /// Index of the state entry for `part_id`.
    pub fn find(&self, part_id: &str) -> (r: Option<usize>)
        ensures
            opt_usize_int(r) == first_keyed(self.parts@, part_id@),
            r matches Some(i) ==> i < self.parts.len(),
    {
        find_keyed_str(&self.parts, part_id)
    }

    /// The state of `part_id`, if the part carries runtime state.
    pub fn part(&self, part_id: &str) -> (r: Option<&PartGameplayState>)
        ensures
            match first_keyed(self.parts@, part_id@) {
                Some(i) => r == Some(&self.parts@[i].state),
                None => r is None,
            },
    {
        match self.find(part_id) {
            Some(i) => Some(&self.parts[i].state),
            None => None,
        }
    }

    /// All (part id, state) entries.
    pub fn entries(&self) -> (r: &Vec<PartEntry>)
        ensures
            r@ == self.parts@,
    {
        &self.parts
    }
}

impl ComposedHealthPools {
    /// Pools at their authored maximum health.
    pub fn from_cache(cache: &CompositionAtlasCache) -> (r: ComposedHealthPools)
        ensures
            pools_view(r.pools@) == pools_view(cache.health_pools@),
    {
        Self::from_cache_with_entity_health_override(cache, None)
    }

    /// Pools at their authored maximum health, except the entity pool, which
    /// takes `entity_health_override` when both are present.
    pub fn from_cache_with_entity_health_override(
        cache: &CompositionAtlasCache,
        entity_health_override: Option<u32>,
    ) -> (r: ComposedHealthPools)
        ensures
            pools_view(r.pools@) == match (entity_health_override, cache.entity_health_pool) {
                (Some(h), Some(pool)) => match first_keyed(cache.health_pools@, pool@) {
                    Some(i) => pools_view(cache.health_pools@).update(i, (pool@, h)),
                    None => pools_view(cache.health_pools@),
                },
                _ => pools_view(cache.health_pools@),
            },
    {
        let mut pools: Vec<HealthPool> = Vec::new();
        let n = cache.health_pools.len();
        for i in 0..n
            invariant
                n == cache.health_pools.len(),
                pools_view(pools@) =~= pools_view(cache.health_pools@.take(i as int)),
                pools@.len() == i,
                forall|k: int| 0 <= k < i ==> (#[trigger] pools@[k]).id@ == cache.health_pools@[k].id@
                    && pools@[k].health == cache.health_pools@[k].health,
        {
            let p = &cache.health_pools[i];
            pools.push(HealthPool { id: p.id.clone(), health: p.health });
            assert forall|k: int| 0 <= k < i + 1 implies #[trigger] pools_view(pools@)[k]
                == pools_view(cache.health_pools@.take(i + 1))[k] by {
                assert(pools_view(pools@)[k] == (pools@[k].id@, pools@[k].health));
                assert(cache.health_pools@.take(i + 1)[k] == cache.health_pools@[k]);
            }
            assert(pools_view(pools@) =~= pools_view(cache.health_pools@.take(i + 1)));
        }
        assert(cache.health_pools@.take(n as int) =~= cache.health_pools@);
        if let (Some(override_health), Some(entity_pool)) = (
            entity_health_override,
            &cache.entity_health_pool,
        ) {
            assert(forall|k: int| 0 <= k < pools@.len() ==> (#[trigger] pools@[k]).key_view()
                == cache.health_pools@[k].key_view());
            let found = find_keyed(&pools, entity_pool);
            proof {
                assert(pools@.len() == cache.health_pools@.len());
                if let Some(i) = found {
                    assert(crate::keyed::is_first_keyed(pools@, entity_pool@, i as int));
                    assert forall|j: int| 0 <= j < i implies (#[trigger] cache.health_pools@[j]).key_view()
                        != entity_pool@ by {
                        assert(pools@[j].key_view() != entity_pool@);
                    }
                    assert(crate::keyed::is_first_keyed(cache.health_pools@, entity_pool@, i as int));
                    crate::keyed::lemma_first_keyed_unique(cache.health_pools@, entity_pool@, i as int);
                } else {
                    assert(!crate::keyed::has_key(cache.health_pools@, entity_pool@)) by {
                        if crate::keyed::has_key(cache.health_pools@, entity_pool@) {
                            let k = choose|k: int|
                                0 <= k < cache.health_pools@.len() && (
                                #[trigger] cache.health_pools@[k]).key_view() == entity_pool@;
                            assert(pools@[k].key_view() == entity_pool@);
                        }
                    }
                }
            }
            if let Some(i) = found {
                let ghost before = pools@;
                pools[i].health = override_health;
                assert(pools_view(pools@) =~= pools_view(before).update(i as int, (entity_pool@, override_health)));
            }
        }
        ComposedHealthPools { pools }
    }

    /// All pools with their current health.
    pub fn pools(&self) -> (r: &Vec<HealthPool>)
        ensures
            r@ == self.pools@,
    {
        &self.pools
    }

    /// Current health of `pool_id`.
    pub fn get(&self, pool_id: &str) -> (r: Option<u32>)
        ensures
            r == match first_keyed(self.pools@, pool_id@) {
                Some(i) => Some(self.pools@[i].health),
                None => None,
            },
    {
        match find_keyed_str(&self.pools, pool_id) {
            Some(i) => Some(self.pools[i].health),
            None => None,
        }
    }

    /// Subtracts `amount` from `pool_id` (saturating at zero) and returns the
    /// remaining health; `None` and no change for an unknown pool.
    pub fn apply_damage(&mut self, pool_id: &String, amount: u32) -> (r: Option<u32>)
        ensures
            match first_keyed(old(self).pools@, pool_id@) {
                Some(i) => {
                    let h = old(self).pools@[i].health;
                    let left = if h >= amount {
                        (h - amount) as u32
                    } else {
                        0u32
                    };
                    &&& r == Some(left)
                    &&& final(self).pools@ == old(self).pools@.update(
                        i,
                        HealthPool { health: left, ..old(self).pools@[i] },
                    )
                },
                None => r is None && final(self).pools@ == old(self).pools@,
            },
    {
        match find_keyed(&self.pools, pool_id) {
            Some(i) => {
                let value = self.pools[i].health.saturating_sub(amount);
                self.pools[i].health = value;
                Some(value)
            },
            None => None,
        }
    }
}


/// Why a part-damage message was rejected.
#[derive(Clone, Copy, Debug, PartialEq, Eq, Structural)]
pub enum PartDamageError {
    /// No semantic part has the given id.
    UnknownPart,
    /// The part is not gameplay-targetable.
    NotTargetable,
    /// The part authors durability but has no runtime state entry.
    MissingDurabilityState,
    /// The part is already broken.
    AlreadyBroken,
    /// The part routes to a health pool that does not exist.
    UnknownHealthPool,
    /// The part owns neither a health pool nor durability.
    NoPoolOrDurability,
}

/// Outcome of a damage message applied to one part.
#[derive(Debug, PartialEq, Eq)]
pub struct AppliedPartDamage {
    pub pool_id: Option<String>,
    pub remaining_health: Option<u32>,
    pub remaining_durability: Option<u32>,
    pub broke_part: bool,
}

/// What a part hit does to the enemy as a whole.
#[derive(Debug, PartialEq, Eq)]
pub struct EntityHealthOutcome {
    /// The enemy's health after the hit (`None`: it keeps no health value).
    pub health: Option<u32>,
    /// Whether the hit kills the enemy.
    pub dies: bool,
}

/// Whether the hit landed on the enemy's own health pool.
pub open spec fn hits_entity_pool(entity_health_pool: Option<String>, result: AppliedPartDamage) -> bool {
    match (entity_health_pool, result.pool_id) {
        (Some(e), Some(p)) => e@ == p@,
        _ => false,
    }
}

/// Follows a part hit through to the enemy: when it landed on the enemy's
/// own health pool, the enemy's health (if it keeps one) becomes what the
/// pool has left, and an emptied pool kills the enemy; a hit on another
/// pool, or on durability only, leaves both as they were.
pub fn entity_health_after_part_damage(
    cache: &CompositionAtlasCache,
    result: &AppliedPartDamage,
    health: Option<u32>,
) -> (r: EntityHealthOutcome)
    ensures
        r.health == if hits_entity_pool(cache.entity_health_pool, *result) && health is Some
            && result.remaining_health is Some {
            result.remaining_health
        } else {
            health
        },
        r.dies == (hits_entity_pool(cache.entity_health_pool, *result) && result.remaining_health == Some(
            0u32,
        )),
{
    let on_entity_pool = match (&cache.entity_health_pool, &result.pool_id) {
        (Some(entity_pool), Some(pool)) => entity_pool.eq(pool),
        _ => false,
    };
    if !on_entity_pool {
        return EntityHealthOutcome { health, dies: false };
    }
    let new_health = match (health, result.remaining_health) {
        (Some(_), Some(left)) => Some(left),
        _ => health,
    };
    let dies = match result.remaining_health {
        Some(left) => left == 0,
        None => false,
    };
    EntityHealthOutcome { health: new_health, dies }
}

pub open spec fn sat_sub(a: u32, b: u32) -> u32 {
    if a >= b {
        (a - b) as u32
    } else {
        0
    }
}

/// Damage left after the part's armour.
pub open spec fn spec_adjusted_damage(part: CachedPart, value: u32) -> u32 {
    sat_sub(value, part.gameplay.armour)
}

/// What a damage message does: its result, and the pools and part states after it.
pub struct DamageOutcome {
    pub result: Result<(Option<Seq<char>>, Option<u32>, Option<u32>, bool), PartDamageError>,
    pub pools: Seq<HealthPool>,
    pub states: Seq<PartEntry>,
}

/// Durability phase: damage still to route, remaining durability, whether the
/// part broke, and the part states afterwards.
pub open spec fn spec_durability_phase(
    part: CachedPart,
    states: Seq<PartEntry>,
    adjusted: u32,
) -> Result<(u32, Option<u32>, bool, Seq<PartEntry>), PartDamageError> {
    match part.gameplay.durability {
        None => Ok((adjusted, None, false, states)),
        Some(_) => match first_keyed(states, part.id@) {
            None => Err(PartDamageError::MissingDurabilityState),
            Some(si) => {
                let st = states[si].state;
                if st.broken {
                    Err(PartDamageError::AlreadyBroken)
                } else {
                    let absorbed = if adjusted <= st.current_durability {
                        adjusted
                    } else {
                        st.current_durability
                    };
                    let cur = (st.current_durability - absorbed) as u32;
                    let broke = st.breakable && cur == 0;
                    let new_state = PartGameplayState {
                        current_durability: cur,
                        broken: if broke {
                            true
                        } else {
                            st.broken
                        },
                        visible: if broke {
                            false
                        } else {
                            st.visible
                        },
                        ..st
                    };
                    Ok(
                        (
                            (adjusted - absorbed) as u32,
                            Some(cur),
                            broke,
                            states.update(si, PartEntry { state: new_state, ..states[si] }),
                        ),
                    )
                }
            },
        },
    }
}

/// Routes `value` damage to `part_id`: armour is subtracted, durability
/// absorbs first (breaking a breakable part at zero), and the rest (or the
/// caller-supplied `ratio_share`) is taken from the part's health pool.
pub open spec fn spec_apply_part_damage(
    parts: Seq<CachedPart>,
    pools: Seq<HealthPool>,
    states: Seq<PartEntry>,
    part_id: Seq<char>,
    value: u32,
    ratio_share: Option<u32>,
) -> DamageOutcome {
    match first_keyed(parts, part_id) {
        None => DamageOutcome { result: Err(PartDamageError::UnknownPart), pools, states },
        Some(pi) => {
            let part = parts[pi];
            if !part.gameplay.targetable {
                DamageOutcome { result: Err(PartDamageError::NotTargetable), pools, states }
            } else {
                let adjusted = spec_adjusted_damage(part, value);
                match spec_durability_phase(part, states, adjusted) {
                    Err(e) => DamageOutcome { result: Err(e), pools, states },
                    Ok((remaining, durability_left, broke, states2)) => {
                        let to_pool = match ratio_share {
                            Some(share) => share,
                            None => remaining,
                        };
                        let pool_view = match part.gameplay.health_pool {
                            Some(p) => Some(p@),
                            None => None,
                        };
                        if to_pool == 0 {
                            DamageOutcome {
                                result: Ok((pool_view, None, durability_left, broke)),
                                pools,
                                states: states2,
                            }
                        } else {
                            match part.gameplay.health_pool {
                                Some(pid) => match first_keyed(pools, pid@) {
                                    None => DamageOutcome {
                                        result: Err(PartDamageError::UnknownHealthPool),
                                        pools,
                                        states: states2,
                                    },
                                    Some(k) => {
                                        let left = sat_sub(pools[k].health, to_pool);
                                        DamageOutcome {
                                            result: Ok((pool_view, Some(left), durability_left, broke)),
                                            pools: pools.update(k, HealthPool { health: left, ..pools[k] }),
                                            states: states2,
                                        }
                                    },
                                },
                                None => if adjusted == 0 || part.gameplay.durability is Some {
                                    DamageOutcome {
                                        result: Ok((None, None, durability_left, broke)),
                                        pools,
                                        states: states2,
                                    }
                                } else {
                                    DamageOutcome {
                                        result: Err(PartDamageError::NoPoolOrDurability),
                                        pools,
                                        states: states2,
                                    }
                                },
                            }
                        }
                    },
                }
            }
        },
    }
}

impl AppliedPartDamage {
    pub open spec fn view_tuple(&self) -> (Option<Seq<char>>, Option<u32>, Option<u32>, bool) {
        (
            match self.pool_id {
                Some(p) => Some(p@),
                None => None,
            },
            self.remaining_health,
            self.remaining_durability,
            self.broke_part,
        )
    }
}

pub open spec fn result_view(r: Result<AppliedPartDamage, PartDamageError>) -> Result<
    (Option<Seq<char>>, Option<u32>, Option<u32>, bool),
    PartDamageError,
> {
    match r {
        Ok(a) => Ok(a.view_tuple()),
        Err(e) => Err(e),
    }
}

/// Damage left for `part_id` after its armour, or `None` for an unknown part.
pub fn adjusted_part_damage(cache: &CompositionAtlasCache, part_id: &str, value: u32) -> (r: Option<
    u32,
>)
    ensures
        r == match first_keyed(cache.parts@, part_id@) {
            Some(i) => Some(spec_adjusted_damage(cache.parts@[i], value)),
            None => None,
        },
{
    match find_keyed_str(&cache.parts, part_id) {
        Some(i) => Some(value.saturating_sub(cache.parts[i].gameplay.armour)),
        None => None,
    }
}

/// Applies one part-damage message.
///
/// `ratio_share` is for parts that author a pool damage ratio: the caller
/// passes the fraction of the adjusted damage (see [`adjusted_part_damage`])
/// that is forwarded to the health pool on every hit, bypassing durability.
/// With `None` the pool receives only what durability did not absorb.
pub fn apply_part_damage(
    cache: &CompositionAtlasCache,
    health_pools: &mut ComposedHealthPools,
    part_states: &mut ComposedPartStates,
    part_id: &str,
    value: u32,
    ratio_share: Option<u32>,
) -> (r: Result<AppliedPartDamage, PartDamageError>)
    ensures
        ({
            let o = spec_apply_part_damage(
                cache.parts@,
                old(health_pools).pools@,
                old(part_states).parts@,
                part_id@,
                value,
                ratio_share,
            );
            &&& result_view(r) == o.result
            &&& final(health_pools).pools@ == o.pools
            &&& final(part_states).parts@ == o.states
        }),
{
    let pi = match find_keyed_str(&cache.parts, part_id) {
        Some(i) => i,
        None => return Err(PartDamageError::UnknownPart),
    };
    let part = &cache.parts[pi];
    if !part.gameplay.targetable {
        return Err(PartDamageError::NotTargetable);
    }
    let adjusted_damage = value.saturating_sub(part.gameplay.armour);
    let mut remaining_damage = adjusted_damage;
    let mut remaining_durability: Option<u32> = None;
    let mut broke_part = false;

    if part.gameplay.durability.is_some() {
        let si = match find_keyed(&part_states.parts, &part.id) {
            Some(i) => i,
            None => return Err(PartDamageError::MissingDurabilityState),
        };
        if part_states.parts[si].state.broken {
            return Err(PartDamageError::AlreadyBroken);
        }
        let current = part_states.parts[si].state.current_durability;
        let absorbed = if remaining_damage <= current {
            remaining_damage
        } else {
            current
        };
        let cur = current - absorbed;
        part_states.parts[si].state.current_durability = cur;
        remaining_damage = remaining_damage - absorbed;
        if part_states.parts[si].state.breakable && cur == 0 {
            part_states.parts[si].state.broken = true;
            part_states.parts[si].state.visible = false;
            broke_part = true;
        }
        remaining_durability = Some(cur);
    }
    let pool_to_apply = match ratio_share {
        Some(share) => share,
        None => remaining_damage,
    };
    let pool_id = match &part.gameplay.health_pool {
        Some(p) => Some(p.clone()),
        None => None,
    };
    if pool_to_apply == 0 {
        return Ok(AppliedPartDamage { pool_id, remaining_health: None, remaining_durability, broke_part });
    }
    match &part.gameplay.health_pool {
        Some(pid) => match health_pools.apply_damage(pid, pool_to_apply) {
            Some(left) => Ok(
                AppliedPartDamage { pool_id, remaining_health: Some(left), remaining_durability, broke_part },
            ),
            None => Err(PartDamageError::UnknownHealthPool),
        },
        None => {
            if adjusted_damage == 0 || part.gameplay.durability.is_some() {
                Ok(AppliedPartDamage { pool_id, remaining_health: None, remaining_durability, broke_part })
            } else {
                Err(PartDamageError::NoPoolOrDurability)
            }
        },
    }
}


/// Pools `after` are pools `before` with no health gained.
pub open spec fn pools_never_heal(before: Seq<HealthPool>, after: Seq<HealthPool>) -> bool {
    &&& after.len() == before.len()
    &&& forall|k: int|
        0 <= k < before.len() ==> (#[trigger] after[k]).id == before[k].id && after[k].health
            <= before[k].health
}

/// Part states `after` are `before` with no durability regained and no
/// broken part restored.
pub open spec fn parts_never_recover(before: Seq<PartEntry>, after: Seq<PartEntry>) -> bool {
    &&& after.len() == before.len()
    &&& forall|k: int|
        0 <= k < before.len() ==> (#[trigger] after[k]).id == before[k].id
            && after[k].state.current_durability <= before[k].state.current_durability && (
        before[k].state.broken ==> after[k].state.broken)
}

/// Damage never heals: no pool gains health, no part regains durability,
/// and a broken part stays broken, whatever message is applied.
pub proof fn lemma_damage_never_heals(
    parts: Seq<CachedPart>,
    pools: Seq<HealthPool>,
    states: Seq<PartEntry>,
    part_id: Seq<char>,
    value: u32,
    ratio_share: Option<u32>,
)
    ensures
        pools_never_heal(pools, spec_apply_part_damage(parts, pools, states, part_id, value, ratio_share).pools),
        parts_never_recover(
            states,
            spec_apply_part_damage(parts, pools, states, part_id, value, ratio_share).states,
        ),
{
    crate::keyed::lemma_first_keyed(parts, part_id);
    crate::keyed::lemma_first_keyed(states, part_id);
    crate::keyed::lemma_first_keyed(pools, part_id);
    if let Some(pi) = first_keyed(parts, part_id) {
        if let Some(pid) = parts[pi].gameplay.health_pool {
            crate::keyed::lemma_first_keyed(pools, pid@);
        }
    }
}

/// Durability absorbs damage before the health pool: a hit that the part's
/// remaining durability covers (with no pool ratio share) leaves every pool
/// untouched and lowers the durability by the damage left after armour.
pub proof fn lemma_durability_absorbs_first(
    parts: Seq<CachedPart>,
    pools: Seq<HealthPool>,
    states: Seq<PartEntry>,
    pi: int,
    si: int,
    value: u32,
)
    requires
        0 <= pi < parts.len(),
        first_keyed(parts, parts[pi].id@) == Some(pi),
        parts[pi].gameplay.targetable,
        parts[pi].gameplay.durability is Some,
        0 <= si < states.len(),
        first_keyed(states, parts[pi].id@) == Some(si),
        !states[si].state.broken,
        spec_adjusted_damage(parts[pi], value) <= states[si].state.current_durability,
    ensures
        ({
            let o = spec_apply_part_damage(parts, pools, states, parts[pi].id@, value, None);
            &&& o.pools == pools
            &&& o.result matches Ok((_, health, durability, _)) && health is None && durability
                == Some((states[si].state.current_durability - spec_adjusted_damage(parts[pi], value)) as u32)
        }),
{
}

/// A broken part absorbs nothing more: damage to it is rejected and leaves
/// every pool and part state unchanged.
pub proof fn lemma_broken_part_rejects_damage(
    parts: Seq<CachedPart>,
    pools: Seq<HealthPool>,
    states: Seq<PartEntry>,
    pi: int,
    si: int,
    value: u32,
    ratio_share: Option<u32>,
)
    requires
        first_keyed(parts, parts[pi].id@) == Some(pi),
        0 <= pi < parts.len(),
        parts[pi].gameplay.targetable,
        parts[pi].gameplay.durability is Some,
        first_keyed(states, parts[pi].id@) == Some(si),
        states[si].state.broken,
    ensures
        spec_apply_part_damage(parts, pools, states, parts[pi].id@, value, ratio_share)
            == (DamageOutcome { result: Err(PartDamageError::AlreadyBroken), pools, states }),
{
}

/// Damage never breaks or hides a part whose state is not breakable: every
/// such state keeps its broken and visible flags, and a successful hit on
/// such a part reports no breakage.
pub proof fn lemma_unbreakable_part_never_breaks(
    parts: Seq<CachedPart>,
    pools: Seq<HealthPool>,
    states: Seq<PartEntry>,
    part_id: Seq<char>,
    value: u32,
    ratio_share: Option<u32>,
)
    ensures
        ({
            let o = spec_apply_part_damage(parts, pools, states, part_id, value, ratio_share);
            &&& o.states.len() == states.len()
            &&& forall|j: int|
                0 <= j < states.len() && !(#[trigger] states[j]).state.breakable ==> o.states[j].state.broken
                    == states[j].state.broken && o.states[j].state.visible == states[j].state.visible
            &&& (first_keyed(states, part_id) matches Some(si) && !states[si].state.breakable) ==> !(
            o.result matches Ok((_, _, _, true)))
        }),
{
    crate::keyed::lemma_first_keyed(parts, part_id);
    crate::keyed::lemma_first_keyed(states, part_id);
    match first_keyed(parts, part_id) {
        Some(pi) => {
            crate::keyed::lemma_first_keyed(states, parts[pi].id@);
        },
        None => {},
    }
}


/// Armour then pool: a hit on a targetable part with no durability that
/// routes to a known pool (and no ratio share) takes the part's armour off
/// the value and lowers that pool by the rest, stopping at zero, and reports
/// the pool's id and what it has left.
pub proof fn lemma_armour_then_pool(
    parts: Seq<CachedPart>,
    pools: Seq<HealthPool>,
    states: Seq<PartEntry>,
    pi: int,
    k: int,
    value: u32,
)
    requires
        0 <= pi < parts.len(),
        first_keyed(parts, parts[pi].id@) == Some(pi),
        parts[pi].gameplay.targetable,
        parts[pi].gameplay.durability is None,
        parts[pi].gameplay.health_pool is Some,
        first_keyed(pools, parts[pi].gameplay.health_pool->0@) == Some(k),
        value > parts[pi].gameplay.armour,
    ensures
        ({
            let o = spec_apply_part_damage(parts, pools, states, parts[pi].id@, value, None);
            let hit = value - parts[pi].gameplay.armour;
            let left = if pools[k].health >= hit {
                pools[k].health - hit
            } else {
                0
            };
            &&& o.result == Ok::<(Option<Seq<char>>, Option<u32>, Option<u32>, bool), PartDamageError>(
                (Some(parts[pi].gameplay.health_pool->0@), Some(left as u32), None, false),
            )
            &&& o.pools[k].health == left
            &&& o.states == states
        }),
{
    crate::keyed::lemma_first_keyed(pools, parts[pi].gameplay.health_pool->0@);
}

} // verus!
