//! The duel resolver: stochastic combat between two capability-bearing
//! entities, fought in rounds until one side drops or the round budget runs
//! out.

use vstd::prelude::*;
use crate::defs::{AttributeLevel, Elf, Goblin};
use crate::game::GameError;
use crate::rng::random_below;
use crate::text::{join_parts, joined};

verus! {

/// Hard cap on duel rounds. The threshold arithmetic can in principle let
/// both sides evade forever, so the loop is bounded; a duel that reaches
/// the cap is scored by the healths standing at that point.
pub const MAX_DUEL_ROUNDS: u32 = 10000;

/// Either kind of combatant.
pub enum Entity {
    Elf(Elf),
    Goblin(Goblin),
}

/// Threshold in hundredths favouring the stronger side: 50 plus strength
/// rank minus agility rank. Used for critical hits, and for evading with
/// one's own guard up.
pub open spec fn strength_bias(strength: AttributeLevel, agility: AttributeLevel) -> int {
    50 + strength.spec_rank() - agility.spec_rank()
}

/// Threshold in hundredths favouring the nimbler side: 50 plus agility
/// rank minus strength rank. Used for evading an incoming attack.
pub open spec fn agility_bias(strength: AttributeLevel, agility: AttributeLevel) -> int {
    50 + agility.spec_rank() - strength.spec_rank()
}

/// Health left after taking a hit, floored at zero.
pub open spec fn hit(health: u32, damage: int) -> u32 {
    if health >= damage {
        (health - damage) as u32
    } else {
        0
    }
}

/// One full duel round, decided by four draws in `[0, 100)`: the first
/// fighter attacks (the opponent evades under its agility bias, a critical
/// under the attacker's strength bias doubles the strength-rank damage),
/// then the opponent strikes back under the mirrored rule even when the
/// first blow just felled it; the first fighter evades under its own
/// strength bias. Returns the healths of (first fighter, opponent).
pub open spec fn spec_round(
    self_strength: AttributeLevel,
    self_agility: AttributeLevel,
    self_health: u32,
    other_strength: AttributeLevel,
    other_agility: AttributeLevel,
    other_health: u32,
    d1: u32,
    d2: u32,
    d3: u32,
    d4: u32,
) -> (u32, u32) {
    let other_after = if d1 < agility_bias(other_strength, other_agility) {
        other_health
    } else if d2 < strength_bias(self_strength, self_agility) {
        hit(other_health, 2 * self_strength.spec_rank())
    } else {
        hit(other_health, self_strength.spec_rank())
    };
    let self_after = if d3 < strength_bias(self_strength, self_agility) {
        self_health
    } else if d4 < strength_bias(other_strength, other_agility) {
        hit(self_health, 2 * other_strength.spec_rank())
    } else {
        hit(self_health, other_strength.spec_rank())
    };
    (self_after, other_after)
}

/// Executable duel round; agrees exactly with `spec_round`, and never
/// raises either health.
pub fn duel_round(
    self_strength: AttributeLevel,
    self_agility: AttributeLevel,
    self_health: u32,
    other_strength: AttributeLevel,
    other_agility: AttributeLevel,
    other_health: u32,
    d1: u32,
    d2: u32,
    d3: u32,
    d4: u32,
) -> (r: (u32, u32))
    ensures
        r == spec_round(
            self_strength,
            self_agility,
            self_health,
            other_strength,
            other_agility,
            other_health,
            d1,
            d2,
            d3,
            d4,
        ),
        r.0 <= self_health,
        r.1 <= other_health,
{
    let self_bias: u32 = 50 + self_strength.rank() - self_agility.rank();
    let other_strength_bias: u32 = 50 + other_strength.rank() - other_agility.rank();
    let other_agility_bias: u32 = 50 + other_agility.rank() - other_strength.rank();
    let other_after: u32 = if d1 < other_agility_bias {
        other_health
    } else {
        let base: u32 = self_strength.rank();
        let damage: u32 = if d2 < self_bias {
            2 * base
        } else {
            base
        };
        if other_health >= damage {
            other_health - damage
        } else {
            0
        }
    };
    let self_after: u32 = if d3 < self_bias {
        self_health
    } else {
        let base: u32 = other_strength.rank();
        let damage: u32 = if d4 < other_strength_bias {
            2 * base
        } else {
            base
        };
        if self_health >= damage {
            self_health - damage
        } else {
            0
        }
    };
    (self_after, other_after)
}

/// Name parts, stats and health of either kind of combatant.
pub trait EntityInfo {
    /// Raw health of the entity.
    spec fn spec_health(&self) -> u32;

    /// Strength level of the entity.
    spec fn spec_strength(&self) -> AttributeLevel;

    /// Agility level of the entity.
    spec fn spec_agility(&self) -> AttributeLevel;

    /// Name parts of the entity.
    spec fn spec_name(&self) -> Seq<Seq<char>>;

    /// Health with an optional adjustment added on, without mutating.
    fn health(&self, change: Option<i32>) -> (r: i32)
        requires
            self.spec_health() <= 100,
            change matches Some(c) ==> c <= i32::MAX - 100,
        ensures
            r == self.spec_health() + (match change {
                Some(c) => c as int,
                None => 0int,
            }),
    ;

    /// Full name: the parts joined with spaces.
    fn name(&self) -> (r: String)
        ensures
            r@ == joined(self.spec_name()),
    ;

    fn strength(&self) -> (r: AttributeLevel)
        ensures
            r == self.spec_strength(),
    ;

    fn agility(&self) -> (r: AttributeLevel)
        ensures
            r == self.spec_agility(),
    ;
}

impl EntityInfo for Goblin {
    open spec fn spec_health(&self) -> u32 {
        self.health
    }

    open spec fn spec_strength(&self) -> AttributeLevel {
        self.strength
    }

    open spec fn spec_agility(&self) -> AttributeLevel {
        self.agility
    }

    open spec fn spec_name(&self) -> Seq<Seq<char>> {
        self.name@.map_values(|p: String| p@)
    }

    fn health(&self, change: Option<i32>) -> (r: i32) {
        let base: i32 = self.health as i32;
        match change {
            Some(c) => base + c,
            None => base,
        }
    }

    fn name(&self) -> (r: String) {
        join_parts(&self.name)
    }

    fn strength(&self) -> (r: AttributeLevel) {
        self.strength
    }

    fn agility(&self) -> (r: AttributeLevel) {
        self.agility
    }
}

impl EntityInfo for Elf {
    open spec fn spec_health(&self) -> u32 {
        self.health
    }

    open spec fn spec_strength(&self) -> AttributeLevel {
        self.strength
    }

    open spec fn spec_agility(&self) -> AttributeLevel {
        self.agility
    }

    open spec fn spec_name(&self) -> Seq<Seq<char>> {
        self.name@.map_values(|p: String| p@)
    }

    fn health(&self, change: Option<i32>) -> (r: i32) {
        let base: i32 = self.health as i32;
        match change {
            Some(c) => base + c,
            None => base,
        }
    }

    fn name(&self) -> (r: String) {
        join_parts(&self.name)
    }

    fn strength(&self) -> (r: AttributeLevel) {
        self.strength
    }

    fn agility(&self) -> (r: AttributeLevel) {
        self.agility
    }
}

impl EntityInfo for Entity {
    open spec fn spec_health(&self) -> u32 {
        match self {
            Entity::Elf(e) => e.health,
            Entity::Goblin(g) => g.health,
        }
    }

    open spec fn spec_strength(&self) -> AttributeLevel {
        match self {
            Entity::Elf(e) => e.strength,
            Entity::Goblin(g) => g.strength,
        }
    }

    open spec fn spec_agility(&self) -> AttributeLevel {
        match self {
            Entity::Elf(e) => e.agility,
            Entity::Goblin(g) => g.agility,
        }
    }

    open spec fn spec_name(&self) -> Seq<Seq<char>> {
        match self {
            Entity::Elf(e) => e.name@.map_values(|p: String| p@),
            Entity::Goblin(g) => g.name@.map_values(|p: String| p@),
        }
    }

    fn health(&self, change: Option<i32>) -> (r: i32) {
        match self {
            Entity::Elf(e) => e.health(change),
            Entity::Goblin(g) => g.health(change),
        }
    }

    fn name(&self) -> (r: String) {
        match self {
            Entity::Elf(e) => e.name(),
            Entity::Goblin(g) => g.name(),
        }
    }

    fn strength(&self) -> (r: AttributeLevel) {
        match self {
            Entity::Elf(e) => e.strength,
            Entity::Goblin(g) => g.strength,
        }
    }

    fn agility(&self) -> (r: AttributeLevel) {
        match self {
            Entity::Elf(e) => e.agility,
            Entity::Goblin(g) => g.agility,
        }
    }
}

/// Two workers that differ at most in health.
pub open spec fn same_elf_but_health(a: Elf, b: Elf) -> bool {
    &&& a.name == b.name
    &&& a.age == b.age
    &&& a.patience == b.patience
    &&& a.intelligence == b.intelligence
    &&& a.strength == b.strength
    &&& a.agility == b.agility
    &&& a.obedience == b.obedience
    &&& a.loyalty == b.loyalty
    &&& a.happiness == b.happiness
    &&& a.hunger == b.hunger
    &&& a.thirst == b.thirst
    &&& a.sleep == b.sleep
    &&& a.roles == b.roles
    &&& a.task == b.task
    &&& a.task_start == b.task_start
    &&& a.building == b.building
}

/// Two creatures that differ at most in health.
pub open spec fn same_goblin_but_health(a: Goblin, b: Goblin) -> bool {
    &&& a.name == b.name
    &&& a.age == b.age
    &&& a.strength == b.strength
    &&& a.agility == b.agility
    &&& a.loyalty == b.loyalty
    &&& a.charisma == b.charisma
}

/// Two combatants of the same kind that differ at most in health.
pub open spec fn same_entity_but_health(a: Entity, b: Entity) -> bool {
    match (a, b) {
        (Entity::Elf(x), Entity::Elf(y)) => same_elf_but_health(x, y),
        (Entity::Goblin(x), Entity::Goblin(y)) => same_goblin_but_health(x, y),
        _ => false,
    }
}

/// Read the raw health of a combatant.
fn raw_health(e: &Entity) -> (h: u32)
    ensures
        h == e.spec_health(),
{
    match e {
        Entity::Elf(x) => x.health,
        Entity::Goblin(x) => x.health,
    }
}

/// Write the raw health of a combatant, leaving the rest alone.
fn put_health(e: &mut Entity, h: u32)
    ensures
        final(e).spec_health() == h,
        same_entity_but_health(*final(e), *old(e)),
{
    match e {
        Entity::Elf(x) => {
            x.health = h;
        },
        Entity::Goblin(x) => {
            x.health = h;
        },
    }
}

/// Fighting a duel against another combatant.
pub trait Fight {
    fn fight(&mut self, entity: Entity) -> Result<bool, GameError>;
}

impl Fight for Entity {
    /// Fight the given opponent round by round, under `spec_round`, until
    /// one side's health reaches zero or the round budget runs out. The
    /// caller is the winner exactly when its health is still positive at
    /// loop exit; a simultaneous knockout is a loss. Health never rises,
    /// and everything else about the caller is untouched. When either side
    /// is already down, no round is fought at all.
    fn fight(&mut self, entity: Entity) -> (r: Result<bool, GameError>)
        ensures
            ({
                &&& r matches Result::Ok(won)
                &&& won == (final(self).spec_health() > 0)
            }),
            final(self).spec_health() <= old(self).spec_health(),
            same_entity_but_health(*final(self), *old(self)),
            old(self).spec_health() == 0 || entity.spec_health() == 0 ==> *final(self) == *old(
                self,
            ),
    {
        let mut opponent = entity;
        let self_strength = self.strength();
        let self_agility = self.agility();
        let opp_strength = opponent.strength();
        let opp_agility = opponent.agility();
        let mut rounds: u32 = MAX_DUEL_ROUNDS;
        while raw_health(self) > 0 && raw_health(&opponent) > 0 && rounds > 0
            invariant
                same_entity_but_health(*self, *old(self)),
                self.spec_health() <= old(self).spec_health(),
                opponent.spec_health() <= entity.spec_health(),
                (old(self).spec_health() == 0 || entity.spec_health() == 0) ==> *self == *old(
                    self,
                ),
                self_strength == old(self).spec_strength(),
                self_agility == old(self).spec_agility(),
                opp_strength == opponent.spec_strength(),
                opp_agility == opponent.spec_agility(),
            decreases rounds,
        {
            let d1 = random_below(100);
            let d2 = random_below(100);
            let d3 = random_below(100);
            let d4 = random_below(100);
            let (self_after, opp_after) = duel_round(
                self_strength,
                self_agility,
                raw_health(self),
                opp_strength,
                opp_agility,
                raw_health(&opponent),
                d1,
                d2,
                d3,
                d4,
            );
            put_health(self, self_after);
            put_health(&mut opponent, opp_after);
            rounds = rounds - 1;
        }
        Result::Ok(raw_health(self) > 0)
    }
}

} // verus!
