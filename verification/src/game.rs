//! Game-level operations: the error type, training, building upgrades and
//! the tick-driven world loop.

use vstd::prelude::*;
use crate::assign::TaskOperations;
use crate::defs::{
    building_for_role, count_material, find_role_slot, has_building,
    material_for_building, material_for_role, remove_matching, role_rank, vec_has_building,
    AttributeLevel, Building, BuildingType, Colony, Elf, Object, Role, RoleAbility, Stronghold,
    Task, World,
};

verus! {

/// Failure kinds of the engine. The first four come from the core
/// operations; the infrastructure kinds are reserved for persistence
/// collaborators outside the engine.
#[derive(Debug, Clone, Copy, PartialEq, Eq, Structural)]
pub enum GameError {
    /// The settlement owns no building of the required type.
    MissingBuilding,
    /// No worker in the settlement, idle or busy, holds the required tags.
    NoSuitableWorker,
    /// The worker already has an active assignment.
    WorkerBusy,
    /// The stockpile holds fewer matching units than the operation costs.
    InsufficientResources,
    /// An input or output channel failed (persistence collaborators only).
    IoError,
    /// A stored value could not be parsed (persistence collaborators only).
    ParseError,
    /// A value could not be encoded (persistence collaborators only).
    EncodingError,
}

/// Whether some entry already carries the tag at the top level: training is
/// then a no-op.
pub open spec fn has_excellent(roles: Seq<RoleAbility>, role: Role) -> bool {
    exists|j: int|
        0 <= j < roles.len() && roles[j].role == role && roles[j].ability
            == AttributeLevel::Excellent
}

/// Units of the tag's material one training call costs: the current rank of
/// the tag plus one, so one unit when the tag is new.
pub open spec fn train_cost(roles: Seq<RoleAbility>, role: Role) -> int {
    role_rank(roles, role) + 1
}

/// The role list after one training call: the first entry with the tag goes
/// one rung up, or the tag is added at the lowest rung.
pub open spec fn trained_roles(roles: Seq<RoleAbility>, role: Role) -> Seq<RoleAbility> {
    let fri = crate::defs::first_role_index(roles, role);
    if fri >= 0 {
        roles.update(fri, RoleAbility { role, ability: roles[fri].ability.spec_promoted() })
    } else {
        roles.push(RoleAbility { role, ability: AttributeLevel::Terrible })
    }
}

/// Two workers that differ at most in their role list.
pub open spec fn same_elf_but_roles(a: Elf, b: Elf) -> bool {
    &&& a.name == b.name
    &&& a.age == b.age
    &&& a.patience == b.patience
    &&& a.intelligence == b.intelligence
    &&& a.strength == b.strength
    &&& a.agility == b.agility
    &&& a.obedience == b.obedience
    &&& a.loyalty == b.loyalty
    &&& a.happiness == b.happiness
    &&& a.hunger == b.hunger
    &&& a.thirst == b.thirst
    &&& a.sleep == b.sleep
    &&& a.task == b.task
    &&& a.task_start == b.task_start
    &&& a.building == b.building
    &&& a.health == b.health
}

/// Scan for an entry carrying the tag at the top level.
fn vec_has_excellent(roles: &Vec<RoleAbility>, role: Role) -> (r: bool)
    ensures
        r == has_excellent(roles@, role),
{
    let n: usize = roles.len();
    for i in 0..n
        invariant
            n == roles@.len(),
            forall|k: int|
                0 <= k < i ==> !(roles@[k].role == role && roles@[k].ability
                    == AttributeLevel::Excellent),
    {
        if roles[i].role == role {
            match roles[i].ability {
                AttributeLevel::Excellent => {
                    assert(roles@[i as int].role == role && roles@[i as int].ability
                        == AttributeLevel::Excellent);
                    return true;
                },
                _ => {},
            }
        }
    }
    false
}

/// Training: converting stockpiled material into a permanent rise of one
/// worker capability.
pub trait Train {
    /// How many workers the roster holds; `train` takes an index below it.
    spec fn worker_count(&self) -> int;

    fn train(&mut self, elf: i32, role: Role) -> Result<(), GameError>
        requires
            0 <= elf < old(self).worker_count(),
    ;
}

impl Train for Stronghold {
    open spec fn worker_count(&self) -> int {
        self.elves@.len() as int
    }

    /// Train the worker at roster index `elf` in the given tag.
    ///
    /// A worker already at the top level is left alone and the call
    /// succeeds. Otherwise the settlement must own the tag's building, the
    /// worker must be idle, and the stockpile must hold rank-plus-one units
    /// of the tag's material; those units are consumed, no others, and the
    /// worker goes exactly one rung up (or gains the tag at the lowest
    /// rung). The worker is never demoted.
    fn train(&mut self, elf: i32, role: Role) -> (r: Result<(), GameError>)
        ensures
            ({
                let s = *old(self);
                let e = s.elves@[elf as int];
                let m = material_for_role(role);
                let cost = train_cost(e.roles@, role);
                &&& (r is Ok <==> (has_excellent(e.roles@, role) || (has_building(
                    s.buildings@,
                    building_for_role(role),
                ) && e.task is None && count_material(s.stockpile@, m) >= cost)))
                &&& match r {
                    Result::Ok(u) => if has_excellent(e.roles@, role) {
                        *final(self) == s
                    } else {
                        &&& final(self).elves@.len() == s.elves@.len()
                        &&& forall|j: int|
                            0 <= j < s.elves@.len() && j != elf ==> final(self).elves@[j]
                                == s.elves@[j]
                        &&& same_elf_but_roles(final(self).elves@[elf as int], e)
                        &&& final(self).elves@[elf as int].roles@ == trained_roles(e.roles@, role)
                        &&& final(self).stockpile@ == remove_matching(s.stockpile@, m, cost)
                        &&& final(self).buildings == s.buildings
                        &&& final(self).task_queue == s.task_queue
                        &&& final(self).name == s.name
                    },
                    Result::Err(err) => {
                        &&& *final(self) == s
                        &&& (err == GameError::MissingBuilding <==> !has_building(
                            s.buildings@,
                            building_for_role(role),
                        ))
                        &&& (err == GameError::WorkerBusy <==> (has_building(
                            s.buildings@,
                            building_for_role(role),
                        ) && e.task is Some))
                        &&& (err == GameError::InsufficientResources <==> (has_building(
                            s.buildings@,
                            building_for_role(role),
                        ) && e.task is None && count_material(s.stockpile@, m) < cost))
                    },
                }
                &&& {
                    let before = role_rank(e.roles@, role);
                    let after = role_rank(final(self).elves@[elf as int].roles@, role);
                    before <= after <= before + 1
                }
            }),
    {
        let idx = elf as usize;
        if vec_has_excellent(&self.elves[idx].roles, role) {
            return Result::Ok(());
        }
        if !vec_has_building(&self.buildings, crate::defs::profession_to_building(role)) {
            return Result::Err(GameError::MissingBuilding);
        }
        if self.elves[idx].task.is_some() {
            return Result::Err(GameError::WorkerBusy);
        }
        let m = crate::defs::profession_to_resource(role);
        let ghost e_old = self.elves@[idx as int];
        let cost: usize = match find_role_slot(&self.elves[idx].roles, role) {
            Some(j) => {
                proof {
                    crate::defs::lemma_first_role_index(e_old.roles@, role);
                }
                let lvl = self.elves[idx].roles[j].ability;
                assert(lvl == e_old.roles@[crate::defs::first_role_index(e_old.roles@, role)]
                    .ability);
                (lvl.rank() + 1) as usize
            },
            None => {
                proof {
                    crate::defs::lemma_first_role_index(e_old.roles@, role);
                }
                1
            },
        };
        assert(cost == train_cost(e_old.roles@, role));
        let have = crate::defs::count_resources(&self.stockpile, m);
        if have < cost {
            return Result::Err(GameError::InsufficientResources);
        }
        let new_stock = crate::defs::remove_resources(&self.stockpile, m, cost);
        self.stockpile = new_stock;
        let ghost pre_elves = self.elves@;
        let mut e = self.elves.remove(idx);
        match find_role_slot(&e.roles, role) {
            Some(j) => {
                proof {
                    crate::defs::lemma_first_role_index(e.roles@, role);
                }
                let cur = e.roles[j];
                let promoted = RoleAbility { role, ability: cur.ability.promoted() };
                e.roles[j] = promoted;
                proof {
                    crate::defs::lemma_first_role_index_update(e_old.roles@, j as int, promoted);
                }
            },
            None => {
                e.roles.push(RoleAbility { role, ability: AttributeLevel::Terrible });
                proof {
                    crate::defs::lemma_first_role_index_push(
                        e_old.roles@,
                        RoleAbility { role, ability: AttributeLevel::Terrible },
                    );
                }
            },
        }
        self.elves.insert(idx, e);
        proof {
            assert(e.roles@ == trained_roles(e_old.roles@, role));
            assert(same_elf_but_roles(e, e_old));
            assert(self.elves@ =~= pre_elves.update(idx as int, e));
            crate::defs::lemma_first_role_index(e_old.roles@, role);
            crate::defs::lemma_first_role_index(trained_roles(e_old.roles@, role), role);
        }
        Result::Ok(())
    }
}

/// The batch pass of a building upgrade, walking the roster from position
/// `i`: each building of the wanted type costs its level plus one units of
/// the type's material; the pass stops, keeping earlier upgrades, as soon
/// as the stockpile runs short. Returns the buildings, the stockpile, and
/// whether the whole pass went through.
pub open spec fn upgrade_batch(
    buildings: Seq<Building>,
    stockpile: Seq<Object>,
    bt: BuildingType,
    i: int,
) -> (Seq<Building>, Seq<Object>, bool)
    decreases buildings.len() - i,
{
    if i < 0 || i >= buildings.len() {
        (buildings, stockpile, true)
    } else if buildings[i].building_type != bt {
        upgrade_batch(buildings, stockpile, bt, i + 1)
    } else if count_material(stockpile, material_for_building(bt)) < buildings[i].level + 1 {
        (buildings, stockpile, false)
    } else {
        upgrade_batch(
            buildings.update(
                i,
                Building {
                    id: buildings[i].id,
                    level: (buildings[i].level + 1) as u32,
                    building_type: buildings[i].building_type,
                },
            ),
            remove_matching(stockpile, material_for_building(bt), buildings[i].level + 1),
            bt,
            i + 1,
        )
    }
}

/// Total units a full upgrade pass from position `i` consumes: level plus
/// one for every building of the type.
pub open spec fn upgrade_cost_from(buildings: Seq<Building>, bt: BuildingType, i: int) -> int
    decreases buildings.len() - i,
{
    if i < 0 || i >= buildings.len() {
        0
    } else {
        (if buildings[i].building_type == bt {
            buildings[i].level + 1
        } else {
            0int
        }) + upgrade_cost_from(buildings, bt, i + 1)
    }
}

/// The pass cost only reads the entries from position `i` on.
proof fn lemma_upgrade_cost_from_congruence(
    a: Seq<Building>,
    b: Seq<Building>,
    bt: BuildingType,
    i: int,
)
    requires
        a.len() == b.len(),
        forall|j: int| i <= j < a.len() ==> a[j] == b[j],
    ensures
        upgrade_cost_from(a, bt, i) == upgrade_cost_from(b, bt, i),
    decreases a.len() - i,
{
    if 0 <= i < a.len() {
        lemma_upgrade_cost_from_congruence(a, b, bt, i + 1);
    }
}

/// A successful upgrade pass raises every building of the type by exactly
/// one level, leaves the rest alone, and consumes exactly the pass cost in
/// matching units, nothing else.
pub proof fn lemma_upgrade_batch(
    buildings: Seq<Building>,
    stockpile: Seq<Object>,
    bt: BuildingType,
    i: int,
)
    requires
        0 <= i <= buildings.len(),
        forall|j: int| i <= j < buildings.len() ==> buildings[j].level < u32::MAX,
    ensures
        ({
            let result = upgrade_batch(buildings, stockpile, bt, i);
            let m = material_for_building(bt);
            &&& result.0.len() == buildings.len()
            &&& forall|j: int| 0 <= j < i ==> result.0[j] == buildings[j]
            &&& result.2 ==> forall|j: int|
                i <= j < buildings.len() ==> result.0[j] == (if buildings[j].building_type == bt {
                    Building {
                        id: buildings[j].id,
                        level: (buildings[j].level + 1) as u32,
                        building_type: buildings[j].building_type,
                    }
                } else {
                    buildings[j]
                })
            &&& result.2 ==> upgrade_cost_from(buildings, bt, i) <= count_material(stockpile, m)
            &&& result.2 ==> count_material(result.1, m) == count_material(stockpile, m)
                - upgrade_cost_from(buildings, bt, i)
            &&& result.2 ==> forall|other: crate::defs::ResourceType|
                other != m ==> count_material(result.1, other) == count_material(stockpile, other)
        }),
    decreases buildings.len() - i,
{
    let m = material_for_building(bt);
    crate::defs::lemma_count_material_bounds(stockpile, m);
    if i >= buildings.len() {
    } else if buildings[i].building_type != bt {
        lemma_upgrade_batch(buildings, stockpile, bt, i + 1);
    } else if count_material(stockpile, m) < buildings[i].level + 1 {
    } else {
        let cost = buildings[i].level + 1;
        let updated = buildings.update(
            i,
            Building {
                id: buildings[i].id,
                level: (buildings[i].level + 1) as u32,
                building_type: buildings[i].building_type,
            },
        );
        let removed = remove_matching(stockpile, m, cost);
        crate::defs::lemma_count_material_bounds(stockpile, m);
        crate::defs::lemma_remove_matching_count(stockpile, m, cost);
        assert forall|j: int| i + 1 <= j < updated.len() implies updated[j].level < u32::MAX by {
            assert(updated[j] == buildings[j]);
        }
        lemma_upgrade_batch(updated, removed, bt, i + 1);
        lemma_upgrade_cost_from_congruence(updated, buildings, bt, i + 1);
        let result = upgrade_batch(buildings, stockpile, bt, i);
        assert(result == upgrade_batch(updated, removed, bt, i + 1));
        assert forall|j: int| 0 <= j < i implies result.0[j] == buildings[j] by {
            assert(result.0[j] == updated[j]);
            assert(updated[j] == buildings[j]);
        }
        if result.2 {
            assert forall|j: int| i <= j < buildings.len() implies result.0[j] == (if buildings[j]
                .building_type == bt {
                Building {
                    id: buildings[j].id,
                    level: (buildings[j].level + 1) as u32,
                    building_type: buildings[j].building_type,
                }
            } else {
                buildings[j]
            }) by {
                if j == i {
                    assert(result.0[j] == updated[j]);
                } else {
                    assert(updated[j] == buildings[j]);
                }
            }
            assert(count_material(removed, m) == count_material(stockpile, m) - cost);
            assert(count_material(result.1, m) == count_material(removed, m) - upgrade_cost_from(
                updated,
                bt,
                i + 1,
            ));
            assert(upgrade_cost_from(buildings, bt, i) == cost + upgrade_cost_from(
                buildings,
                bt,
                i + 1,
            ));
            assert forall|other: crate::defs::ResourceType| other != m implies count_material(
                result.1,
                other,
            ) == count_material(stockpile, other) by {
                assert(count_material(result.1, other) == count_material(removed, other));
                assert(count_material(removed, other) == count_material(stockpile, other));
            }
        }
    }
}

/// Greatest identifier among the settlement's buildings, or -1 when there
/// are none.
pub open spec fn max_building_id(buildings: Seq<Building>) -> int
    decreases buildings.len(),
{
    if buildings.len() == 0 {
        -1
    } else {
        let prev = max_building_id(buildings.drop_last());
        if buildings[buildings.len() - 1].id > prev {
            buildings[buildings.len() - 1].id as int
        } else {
            prev
        }
    }
}

/// No building's identifier exceeds the maximum.
pub proof fn lemma_max_building_id(buildings: Seq<Building>)
    ensures
        max_building_id(buildings) >= -1,
        forall|i: int| 0 <= i < buildings.len() ==> buildings[i].id <= max_building_id(buildings),
    decreases buildings.len(),
{
    if buildings.len() > 0 {
        lemma_max_building_id(buildings.drop_last());
        assert forall|i: int| 0 <= i < buildings.len() implies buildings[i].id <= max_building_id(
            buildings,
        ) by {
            if i < buildings.len() - 1 {
                assert(buildings.drop_last()[i] == buildings[i]);
            }
        }
    }
}

/// A fresh identifier for a new building: one past the greatest in use, so
/// it collides with none even after removals.
fn fresh_building_id(buildings: &Vec<Building>) -> (r: u32)
    requires
        forall|i: int| 0 <= i < buildings@.len() ==> buildings@[i].id < u32::MAX,
    ensures
        r as int == max_building_id(buildings@) + 1,
        forall|i: int| 0 <= i < buildings@.len() ==> buildings@[i].id != r,
{
    let n: usize = buildings.len();
    let mut m: i64 = -1;
    proof {
        assert(buildings@.subrange(0, 0) =~= Seq::<Building>::empty());
    }
    for i in 0..n
        invariant
            n == buildings@.len(),
            forall|k: int| 0 <= k < n ==> buildings@[k].id < u32::MAX,
            m == max_building_id(buildings@.subrange(0, i as int)),
            -1 <= m < u32::MAX,
    {
        proof {
            assert(buildings@.subrange(0, i + 1).drop_last() =~= buildings@.subrange(0, i as int));
            assert(buildings@.subrange(0, i + 1)[i as int] == buildings@[i as int]);
        }
        if (buildings[i].id as i64) > m {
            m = buildings[i].id as i64;
        }
    }
    proof {
        assert(buildings@.subrange(0, n as int) =~= buildings@);
        lemma_max_building_id(buildings@);
    }
    (m + 1) as u32
}

/// The deferred-queue drain from position `i`: each entry is re-submitted;
/// an assigned entry leaves the queue (the position then holds the next
/// entry), a deferrable one stays and the drain moves on, and a missing
/// building or a roster with nobody qualified stops the drain with that
/// error. Returns the roster, the queue, and the error that stopped the
/// drain, if one did.
pub open spec fn spec_drain(
    elves: Seq<Elf>,
    queue: Seq<Task>,
    buildings: Seq<Building>,
    tick: u64,
    i: int,
) -> (Seq<Elf>, Seq<Task>, Option<GameError>)
    decreases queue.len() - i,
{
    if i < 0 || i >= queue.len() {
        (elves, queue, None)
    } else {
        let task = queue[i];
        if !has_building(buildings, task.required_building) {
            (elves, queue, Some(GameError::MissingBuilding))
        } else {
            let b = crate::assign::best_index(elves, task.required_roles@, elves.len() as int);
            if b >= 0 {
                spec_drain(
                    elves.update(b, crate::assign::with_assignment(elves[b], task, tick)),
                    queue.remove(i),
                    buildings,
                    tick,
                    i,
                )
            } else if exists|j: int|
                0 <= j < elves.len() && #[trigger] crate::defs::holds_all(
                    elves[j].roles@,
                    task.required_roles@,
                ) {
                spec_drain(elves, queue, buildings, tick, i + 1)
            } else {
                (elves, queue, Some(GameError::NoSuitableWorker))
            }
        }
    }
}

/// Drain the deferred queue at the given tick, oldest entry first,
/// exactly as `spec_drain` describes.
fn drain_queue(s: &mut Stronghold, tick: u64) -> (r: Result<(), GameError>)
    ensures
        ({
            let result = spec_drain(
                old(s).elves@,
                old(s).task_queue@,
                old(s).buildings@,
                tick,
                0,
            );
            &&& final(s).elves@ == result.0
            &&& final(s).task_queue@ == result.1
            &&& match r {
                Result::Ok(u) => result.2 is None,
                Result::Err(e) => result.2 == Some(e),
            }
        }),
        final(s).buildings == old(s).buildings,
        final(s).stockpile == old(s).stockpile,
        final(s).name == old(s).name,
{
    let mut i: usize = 0;
    while i < s.task_queue.len()
        invariant
            i <= s.task_queue@.len(),
            spec_drain(old(s).elves@, old(s).task_queue@, old(s).buildings@, tick, 0)
                == spec_drain(s.elves@, s.task_queue@, s.buildings@, tick, i as int),
            s.buildings == old(s).buildings,
            s.stockpile == old(s).stockpile,
            s.name == old(s).name,
        decreases s.task_queue@.len() - i,
    {
        if !vec_has_building(&s.buildings, s.task_queue[i].required_building) {
            return Result::Err(GameError::MissingBuilding);
        }
        let ghost pre_elves = s.elves@;
        let ghost pre_queue = s.task_queue@;
        match crate::assign::pick_best(&s.elves, &s.task_queue[i].required_roles) {
            Some(b) => {
                let task = s.task_queue.remove(i);
                crate::assign::set_assignment(&mut s.elves, b, task, tick);
                proof {
                    assert(s.elves@ == pre_elves.update(
                        b as int,
                        crate::assign::with_assignment(pre_elves[b as int], pre_queue[i as int], tick),
                    ));
                    assert(spec_drain(pre_elves, pre_queue, s.buildings@, tick, i as int)
                        == spec_drain(s.elves@, s.task_queue@, s.buildings@, tick, i as int));
                }
            },
            None => {
                if crate::assign::any_qualified(&s.elves, &s.task_queue[i].required_roles) {
                    i = i + 1;
                } else {
                    return Result::Err(GameError::NoSuitableWorker);
                }
            },
        }
    }
    Result::Ok(())
}

/// One settlement carried over a whole tick: finished work swept (workers
/// freed, produced objects merged into the stockpile), then the deferred
/// queue drained without error.
pub open spec fn stronghold_ticked(pre: Stronghold, post: Stronghold, tick: u64) -> bool {
    let swept = crate::assign::swept_elves(pre.elves@, tick);
    let result = spec_drain(swept, pre.task_queue@, pre.buildings@, tick, 0);
    &&& post.elves@ == result.0
    &&& post.task_queue@ == result.1
    &&& post.stockpile@ == pre.stockpile@ + crate::assign::swept_produced(pre.elves@, tick)
    &&& post.buildings == pre.buildings
    &&& post.name == pre.name
    &&& result.2 is None
}

/// One settlement swept and then stopped mid-drain by the given error,
/// keeping what the drain had already assigned.
pub open spec fn stronghold_tick_failed(
    pre: Stronghold,
    post: Stronghold,
    tick: u64,
    e: GameError,
) -> bool {
    let swept = crate::assign::swept_elves(pre.elves@, tick);
    let result = spec_drain(swept, pre.task_queue@, pre.buildings@, tick, 0);
    &&& post.elves@ == result.0
    &&& post.task_queue@ == result.1
    &&& post.stockpile@ == pre.stockpile@ + crate::assign::swept_produced(pre.elves@, tick)
    &&& post.buildings == pre.buildings
    &&& post.name == pre.name
    &&& result.2 == Some(e)
}

/// A colony whose settlements were all carried over the tick.
pub open spec fn colony_ticked(pre: Colony, post: Colony, tick: u64) -> bool {
    &&& post.name == pre.name
    &&& post.leader == pre.leader
    &&& post.strongholds@.len() == pre.strongholds@.len()
    &&& forall|k: int|
        0 <= k < pre.strongholds@.len() ==> #[trigger] stronghold_ticked(
            pre.strongholds@[k],
            post.strongholds@[k],
            tick,
        )
}

/// A colony whose tick stopped at settlement `k` with the given error:
/// earlier settlements fully ticked, that one stopped mid-drain, later
/// ones untouched.
pub open spec fn colony_tick_failed(
    pre: Colony,
    post: Colony,
    tick: u64,
    k: int,
    e: GameError,
) -> bool {
    &&& post.name == pre.name
    &&& post.leader == pre.leader
    &&& post.strongholds@.len() == pre.strongholds@.len()
    &&& 0 <= k < pre.strongholds@.len()
    &&& forall|k2: int|
        0 <= k2 < k ==> #[trigger] stronghold_ticked(
            pre.strongholds@[k2],
            post.strongholds@[k2],
            tick,
        )
    &&& stronghold_tick_failed(pre.strongholds@[k], post.strongholds@[k], tick, e)
    &&& forall|k2: int|
        k < k2 < pre.strongholds@.len() ==> post.strongholds@[k2] == #[trigger] pre
            .strongholds@[k2]
}

/// A starting food unit: meat of an unknown animal.
pub open spec fn is_seed_food(o: Object) -> bool {
    &&& o.resource_type == crate::defs::ResourceType::Animal
    &&& o.object_type matches crate::defs::ObjectType::Food { name, description, hunger_power }
    &&& o.object_type->Food_name@ == "Unidentified Meat"@
    &&& o.object_type->Food_description@ == "A piece of meat from an unknown animal"@
    &&& o.object_type->Food_hunger_power == 3
}

/// A starting water unit, bottled in glass.
pub open spec fn is_seed_water(o: Object) -> bool {
    o.resource_type == crate::defs::ResourceType::Glass && o.object_type
        matches crate::defs::ObjectType::Water
}

/// A freshly seeded worker: full health, idle, at least three uniquely
/// tagged capabilities starting with the given tags, and never the
/// degenerate tag.
pub open spec fn elf_seeded(e: Elf, tags: Seq<Role>) -> bool {
    &&& e.health == 100
    &&& e.task is None
    &&& e.task_start is None
    &&& e.building is None
    &&& 18 <= e.age < 100
    &&& e.roles@.len() == if tags.len() >= 3 {
        tags.len() as int
    } else {
        3
    }
    &&& forall|j: int| 0 <= j < tags.len() ==> #[trigger] e.roles@[j].role == tags[j]
    &&& crate::entities::role_tags(e.roles@).no_duplicates()
    &&& !crate::entities::role_tags(e.roles@).contains(Role::Nitwit)
}

/// A freshly started world: the clock at zero, one colony under the given
/// banner, one settlement with its three starting buildings, eleven seeded
/// workers, and a stockpile of 110 food and 550 water units.
pub open spec fn seeded_world(r: World, name: Option<String>, username: Option<String>) -> bool {
    &&& r.tick == 0
    &&& r.name@ == (match name {
        Some(n) => n@,
        None => "World"@,
    })
    &&& r.colonies@.len() == 1
    &&& r.colonies@[0].name@ == (match name {
        Some(n) => n@,
        None => "Earth"@,
    })
    &&& r.colonies@[0].leader@ == (match username {
        Some(u) => u@,
        None => "Player"@,
    })
    &&& r.colonies@[0].strongholds@.len() == 1
    &&& ({
        let sh = r.colonies@[0].strongholds@[0];
        &&& sh.name@ == "First Stronghold of "@ + (match name {
            Some(n) => n@,
            None => "Earth"@,
        }) + " Colony"@
        &&& sh.task_queue@.len() == 0
        &&& sh.buildings@ == seq![
            Building { id: 0, level: 1, building_type: BuildingType::MeetingHall },
            Building { id: 1, level: 1, building_type: BuildingType::Barracks },
            Building { id: 2, level: 1, building_type: BuildingType::Farm },
        ]
        &&& sh.stockpile@.len() == 660
        &&& forall|j: int| 0 <= j < 110 ==> is_seed_food(#[trigger] sh.stockpile@[j])
        &&& forall|j: int| 110 <= j < 660 ==> is_seed_water(#[trigger] sh.stockpile@[j])
        &&& sh.elves@.len() == 11
        &&& elf_seeded(sh.elves@[0], seq![Role::Leader, Role::Elder])
        &&& elf_seeded(sh.elves@[1], seq![Role::Trader, Role::Elder, Role::Miner])
        &&& elf_seeded(sh.elves@[2], seq![Role::Trader, Role::Warrior])
        &&& elf_seeded(sh.elves@[3], seq![Role::Warrior, Role::Elder])
        &&& elf_seeded(sh.elves@[4], seq![Role::Warrior, Role::Miner])
        &&& elf_seeded(sh.elves@[5], seq![Role::Warrior])
        &&& elf_seeded(sh.elves@[6], seq![Role::Scientist, Role::Elder])
        &&& elf_seeded(sh.elves@[7], seq![Role::Farmer, Role::Elder])
        &&& elf_seeded(sh.elves@[8], seq![Role::Cook])
        &&& elf_seeded(sh.elves@[9], seq![Role::Farmer])
        &&& elf_seeded(sh.elves@[10], seq![Role::Miner])
    })
}

/// Seed one worker from a duplicate-free tag list.
fn seed_elf(tags: Vec<Role>) -> (e: Elf)
    requires
        tags@.no_duplicates(),
        !tags@.contains(Role::Nitwit),
    ensures
        elf_seeded(e, tags@),
{
    proof {
        crate::entities::lemma_dedup_unique(tags@);
    }
    crate::entities::NewEntity::new(None, None, Some(tags))
}

/// Build the starting world that `GameOptions::new` promises.
fn seed_world(name: Option<String>, username: Option<String>) -> (r: World)
    ensures
        seeded_world(r, name, username),
{
    let world_name: String = match &name {
        Some(n) => n.clone(),
        None => "World".to_owned(),
    };
    let colony_name: String = match &name {
        Some(n) => n.clone(),
        None => "Earth".to_owned(),
    };
    let leader: String = match &username {
        Some(u) => u.clone(),
        None => "Player".to_owned(),
    };
    let mut sh_name = String::new();
    crate::text::append_str(&mut sh_name, "First Stronghold of ");
    crate::text::append_str(&mut sh_name, colony_name.as_str());
    crate::text::append_str(&mut sh_name, " Colony");

    let mut elves: Vec<Elf> = Vec::new();
    elves.push(seed_elf(vec![Role::Leader, Role::Elder]));
    elves.push(seed_elf(vec![Role::Trader, Role::Elder, Role::Miner]));
    elves.push(seed_elf(vec![Role::Trader, Role::Warrior]));
    elves.push(seed_elf(vec![Role::Warrior, Role::Elder]));
    elves.push(seed_elf(vec![Role::Warrior, Role::Miner]));
    elves.push(seed_elf(vec![Role::Warrior]));
    elves.push(seed_elf(vec![Role::Scientist, Role::Elder]));
    elves.push(seed_elf(vec![Role::Farmer, Role::Elder]));
    elves.push(seed_elf(vec![Role::Cook]));
    elves.push(seed_elf(vec![Role::Farmer]));
    elves.push(seed_elf(vec![Role::Miner]));

    let mut buildings: Vec<Building> = Vec::new();
    buildings.push(Building { id: 0, level: 1, building_type: BuildingType::MeetingHall });
    buildings.push(Building { id: 1, level: 1, building_type: BuildingType::Barracks });
    buildings.push(Building { id: 2, level: 1, building_type: BuildingType::Farm });
    proof {
        assert(buildings@ =~= seq![
            Building { id: 0, level: 1, building_type: BuildingType::MeetingHall },
            Building { id: 1, level: 1, building_type: BuildingType::Barracks },
            Building { id: 2, level: 1, building_type: BuildingType::Farm },
        ]);
    }

    let mut stockpile: Vec<Object> = Vec::new();
    for i in 0..110usize
        invariant
            stockpile@.len() == i,
            forall|j: int| 0 <= j < i ==> is_seed_food(#[trigger] stockpile@[j]),
    {
        stockpile.push(
            Object {
                object_type: crate::defs::ObjectType::Food {
                    name: "Unidentified Meat".to_owned(),
                    description: "A piece of meat from an unknown animal".to_owned(),
                    hunger_power: 3,
                },
                resource_type: crate::defs::ResourceType::Animal,
            },
        );
    }
    for i in 0..550usize
        invariant
            stockpile@.len() == 110 + i,
            forall|j: int| 0 <= j < 110 ==> is_seed_food(#[trigger] stockpile@[j]),
            forall|j: int| 110 <= j < 110 + i ==> is_seed_water(#[trigger] stockpile@[j]),
    {
        stockpile.push(
            Object {
                object_type: crate::defs::ObjectType::Water,
                resource_type: crate::defs::ResourceType::Glass,
            },
        );
    }

    let stronghold = Stronghold {
        name: sh_name,
        elves,
        buildings,
        task_queue: Vec::new(),
        stockpile,
    };
    let mut strongholds: Vec<Stronghold> = Vec::new();
    strongholds.push(stronghold);
    let colony = Colony { name: colony_name, strongholds, leader };
    let mut colonies: Vec<Colony> = Vec::new();
    colonies.push(colony);
    World { name: world_name, colonies, tick: 0 }
}

/// Whole-game operations: starting a world and advancing its clock.
pub trait GameOptions: Sized {
    /// The logical clock; `tick` advances it by one and needs headroom.
    spec fn clock(&self) -> int;

    fn new(name: Option<String>, username: Option<String>) -> Self;

    fn tick(&mut self) -> Result<(), GameError>
        requires
            old(self).clock() < u64::MAX,
    ;
}

impl GameOptions for World {
    open spec fn clock(&self) -> int {
        self.tick as int
    }

    /// Start a world with one colony holding one settlement: eleven
    /// seeded workers, a meeting hall, a barracks and a farm at level 1,
    /// and a stockpile of 110 units of food and 550 of water; the clock
    /// starts at zero.
    fn new(name: Option<String>, username: Option<String>) -> (r: World)
        ensures
            seeded_world(r, name, username),
    {
        seed_world(name, username)
    }

    /// Advance the world one tick: sweep every settlement for finished
    /// work, drain every deferred queue, and then move the clock forward
    /// by one. The first error met stops the drain there and is returned,
    /// with the clock untouched and everything already done kept.
    fn tick(&mut self) -> (r: Result<(), GameError>)
        ensures
            final(self).name == old(self).name,
            final(self).colonies@.len() == old(self).colonies@.len(),
            ({
                let w = *old(self);
                match r {
                    Result::Ok(u) => {
                        &&& final(self).tick == w.tick + 1
                        &&& forall|c: int|
                            0 <= c < w.colonies@.len() ==> #[trigger] colony_ticked(
                                w.colonies@[c],
                                final(self).colonies@[c],
                                w.tick,
                            )
                    },
                    Result::Err(e) => {
                        &&& final(self).tick == w.tick
                        &&& exists|c: int|
                            #![trigger w.colonies@[c]]
                            {
                                &&& 0 <= c < w.colonies@.len()
                                &&& forall|c2: int|
                                    0 <= c2 < c ==> #[trigger] colony_ticked(
                                        w.colonies@[c2],
                                        final(self).colonies@[c2],
                                        w.tick,
                                    )
                                &&& exists|k: int|
                                    #[trigger] colony_tick_failed(
                                        w.colonies@[c],
                                        final(self).colonies@[c],
                                        w.tick,
                                        k,
                                        e,
                                    )
                                &&& forall|c2: int|
                                    c < c2 < w.colonies@.len() ==> final(self).colonies@[c2]
                                        == #[trigger] w.colonies@[c2]
                            }
                    },
                }
            }),
    {
        let ghost w = *old(self);
        let now = self.tick;
        let mut c: usize = 0;
        while c < self.colonies.len()
            invariant
                w == *old(self),
                now == w.tick,
                self.tick == w.tick,
                self.name == w.name,
                self.colonies@.len() == w.colonies@.len(),
                c <= w.colonies@.len(),
                forall|c2: int|
                    0 <= c2 < c ==> #[trigger] colony_ticked(
                        w.colonies@[c2],
                        self.colonies@[c2],
                        w.tick,
                    ),
                forall|c2: int|
                    c <= c2 < w.colonies@.len() ==> self.colonies@[c2] == #[trigger] w
                        .colonies@[c2],
            decreases self.colonies@.len() - c,
        {
            let ghost pre_colonies = self.colonies@;
            let mut colony = self.colonies.remove(c);
            let ghost colony0 = colony;
            let mut k: usize = 0;
            while k < colony.strongholds.len()
                invariant
                    w == *old(self),
                    colony0 == w.colonies@[c as int],
                    0 <= c < w.colonies@.len(),
                    now == w.tick,
                    self.tick == w.tick,
                    self.name == w.name,
                    pre_colonies.len() == w.colonies@.len(),
                    self.colonies@ == pre_colonies.remove(c as int),
                    forall|c2: int|
                        0 <= c2 < c ==> #[trigger] colony_ticked(
                            w.colonies@[c2],
                            pre_colonies[c2],
                            w.tick,
                        ),
                    forall|c2: int|
                        c <= c2 < w.colonies@.len() ==> pre_colonies[c2] == #[trigger] w
                            .colonies@[c2],
                    colony.strongholds@.len() == colony0.strongholds@.len(),
                    colony.name == colony0.name,
                    colony.leader == colony0.leader,
                    k <= colony0.strongholds@.len(),
                    forall|k2: int|
                        0 <= k2 < k ==> #[trigger] stronghold_ticked(
                            colony0.strongholds@[k2],
                            colony.strongholds@[k2],
                            w.tick,
                        ),
                    forall|k2: int|
                        k <= k2 < colony0.strongholds@.len() ==> colony.strongholds@[k2]
                            == #[trigger] colony0.strongholds@[k2],
                decreases colony.strongholds@.len() - k,
            {
                let ghost pre_strongholds = colony.strongholds@;
                let mut sh = colony.strongholds.remove(k);
                let _swept = sh.check_tasks_complete(now);
                let drained = drain_queue(&mut sh, now);
                colony.strongholds.insert(k, sh);
                proof {
                    assert(colony.strongholds@ =~= pre_strongholds.update(k as int, sh));
                }
                match drained {
                    Result::Ok(u) => {
                        proof {
                            assert(stronghold_ticked(
                                colony0.strongholds@[k as int],
                                colony.strongholds@[k as int],
                                w.tick,
                            ));
                        }
                        k = k + 1;
                    },
                    Result::Err(e) => {
                        proof {
                            assert(stronghold_tick_failed(
                                colony0.strongholds@[k as int],
                                colony.strongholds@[k as int],
                                w.tick,
                                e,
                            ));
                            assert(colony_tick_failed(colony0, colony, w.tick, k as int, e));
                        }
                        self.colonies.insert(c, colony);
                        proof {
                            assert(self.colonies@ =~= pre_colonies.update(c as int, colony));
                            assert(self.colonies@[c as int] == colony);
                            assert(colony_tick_failed(
                                w.colonies@[c as int],
                                self.colonies@[c as int],
                                w.tick,
                                k as int,
                                e,
                            ));
                            assert forall|c2: int| 0 <= c2 < c implies #[trigger] colony_ticked(
                                w.colonies@[c2],
                                self.colonies@[c2],
                                w.tick,
                            ) by {
                                assert(self.colonies@[c2] == pre_colonies[c2]);
                            }
                            assert forall|c2: int|
                                c < c2 < w.colonies@.len() implies self.colonies@[c2]
                                == #[trigger] w.colonies@[c2] by {
                                assert(self.colonies@[c2] == pre_colonies[c2]);
                            }
                        }
                        return Result::Err(e);
                    },
                }
            }
            proof {
                assert(colony_ticked(colony0, colony, w.tick));
            }
            self.colonies.insert(c, colony);
            proof {
                assert(self.colonies@ =~= pre_colonies.update(c as int, colony));
            }
            c = c + 1;
        }
        self.tick = self.tick + 1;
        Result::Ok(())
    }
}

/// Building upgrades: converting stockpiled material into building levels,
/// or raising a first building of a type.
pub trait UpgradeBuilding {
    /// Levels and identifiers still have numeric headroom; upgrades take
    /// this as given.
    spec fn upgrade_headroom(&self) -> bool;

    fn upgrade_building(&mut self, building: BuildingType) -> Result<(), GameError>
        requires
            old(self).upgrade_headroom(),
    ;
}

impl UpgradeBuilding for Stronghold {
    open spec fn upgrade_headroom(&self) -> bool {
        &&& forall|i: int|
            0 <= i < self.buildings@.len() ==> #[trigger] self.buildings@[i].level < u32::MAX
        &&& forall|i: int|
            0 <= i < self.buildings@.len() ==> #[trigger] self.buildings@[i].id < u32::MAX
    }

    /// Upgrade every building of the given type, in roster order, paying
    /// level plus one matching units for each; each building processed
    /// before a shortfall keeps its upgrade. With no building of the type,
    /// construct one at level 1 under a fresh identifier for one unit.
    fn upgrade_building(&mut self, building: BuildingType) -> (r: Result<(), GameError>)
        ensures
            final(self).elves == old(self).elves,
            final(self).task_queue == old(self).task_queue,
            final(self).name == old(self).name,
            ({
                let s = *old(self);
                let m = material_for_building(building);
                if has_building(s.buildings@, building) {
                    let result = upgrade_batch(s.buildings@, s.stockpile@, building, 0);
                    &&& final(self).buildings@ == result.0
                    &&& final(self).stockpile@ == result.1
                    &&& (r is Ok <==> result.2)
                    &&& (r is Err ==> r == Result::<(), GameError>::Err(
                        GameError::InsufficientResources,
                    ))
                    &&& (r is Ok ==> {
                        &&& final(self).buildings@.len() == s.buildings@.len()
                        &&& forall|j: int|
                            0 <= j < s.buildings@.len() ==> #[trigger] final(self).buildings@[j]
                                == (if s.buildings@[j].building_type == building {
                                Building {
                                    id: s.buildings@[j].id,
                                    level: (s.buildings@[j].level + 1) as u32,
                                    building_type: s.buildings@[j].building_type,
                                }
                            } else {
                                s.buildings@[j]
                            })
                        &&& count_material(final(self).stockpile@, m) == count_material(
                            s.stockpile@,
                            m,
                        ) - upgrade_cost_from(s.buildings@, building, 0)
                        &&& forall|other: crate::defs::ResourceType|
                            other != m ==> count_material(final(self).stockpile@, other)
                                == count_material(s.stockpile@, other)
                    })
                } else {
                    &&& (r is Ok <==> count_material(s.stockpile@, m) >= 1)
                    &&& (r is Ok ==> {
                        &&& final(self).buildings@ == s.buildings@.push(
                            Building {
                                id: (max_building_id(s.buildings@) + 1) as u32,
                                level: 1,
                                building_type: building,
                            },
                        )
                        &&& forall|i: int|
                            0 <= i < s.buildings@.len() ==> #[trigger] s.buildings@[i].id
                                != (max_building_id(s.buildings@) + 1) as u32
                        &&& final(self).stockpile@ == remove_matching(s.stockpile@, m, 1)
                        &&& count_material(final(self).stockpile@, m) == count_material(
                            s.stockpile@,
                            m,
                        ) - 1
                    })
                    &&& (r is Err ==> r == Result::<(), GameError>::Err(
                        GameError::InsufficientResources,
                    ) && *final(self) == s)
                }
            }),
    {
        let ghost s = *old(self);
        let m = crate::defs::building_to_resource(building);
        let mut i: usize = 0;
        let mut found = false;
        while i < self.buildings.len()
            invariant
                s == *old(self),
                self.buildings@.len() == s.buildings@.len(),
                i <= s.buildings@.len(),
                forall|k: int| 0 <= k < s.buildings@.len() ==> #[trigger] s.buildings@[k].level
                    < u32::MAX,
                forall|k: int| 0 <= k < s.buildings@.len() ==> #[trigger] s.buildings@[k].id
                    < u32::MAX,
                m == material_for_building(building),
                upgrade_batch(s.buildings@, s.stockpile@, building, 0) == upgrade_batch(
                    self.buildings@,
                    self.stockpile@,
                    building,
                    i as int,
                ),
                forall|j: int| i <= j < s.buildings@.len() ==> self.buildings@[j]
                    == s.buildings@[j],
                found <==> exists|j: int|
                    0 <= j < i && s.buildings@[j].building_type == building,
                !found ==> self.buildings == s.buildings && self.stockpile == s.stockpile,
                self.elves == s.elves,
                self.task_queue == s.task_queue,
                self.name == s.name,
            decreases self.buildings@.len() - i,
        {
            let ghost pre_bs = self.buildings@;
            let ghost pre_st = self.stockpile@;
            if self.buildings[i].building_type == building {
                found = true;
                let b = self.buildings[i];
                let cost32: u32 = b.level + 1;
                let cost: usize = cost32 as usize;
                let have = crate::defs::count_resources(&self.stockpile, m);
                if have < cost {
                    proof {
                        assert(s.buildings@[i as int].building_type == building);
                    }
                    return Result::Err(GameError::InsufficientResources);
                }
                let new_stock = crate::defs::remove_resources(&self.stockpile, m, cost);
                self.stockpile = new_stock;
                self.buildings[i] = Building {
                    id: b.id,
                    level: cost32,
                    building_type: b.building_type,
                };
                proof {
                    assert(self.buildings@ =~= pre_bs.update(
                        i as int,
                        Building { id: b.id, level: cost32, building_type: b.building_type },
                    ));
                    assert(upgrade_batch(pre_bs, pre_st, building, i as int) == upgrade_batch(
                        self.buildings@,
                        self.stockpile@,
                        building,
                        i + 1,
                    ));
                }
                i = i + 1;
            } else {
                i = i + 1;
            }
        }
        if found {
            proof {
                lemma_upgrade_batch(s.buildings@, s.stockpile@, building, 0);
            }
            return Result::Ok(());
        }
        let have = crate::defs::count_resources(&self.stockpile, m);
        if have < 1 {
            return Result::Err(GameError::InsufficientResources);
        }
        proof {
            crate::defs::lemma_remove_matching_count(s.stockpile@, m, 1);
        }
        let new_stock = crate::defs::remove_resources(&self.stockpile, m, 1);
        self.stockpile = new_stock;
        let fresh = fresh_building_id(&self.buildings);
        self.buildings.push(Building { id: fresh, level: 1, building_type: building });
        Result::Ok(())
    }
}

} // verus!
