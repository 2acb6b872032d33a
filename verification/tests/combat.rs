use stronghold::combat::{duel_round, Entity, EntityInfo, Fight};
use stronghold::defs::{AttributeLevel, Goblin};

fn goblin(strength: AttributeLevel, agility: AttributeLevel, health: u32) -> Goblin {
    Goblin {
        name: vec![String::from("grak"), String::from("zar")],
        age: 25,
        strength,
        agility,
        loyalty: AttributeLevel::Average,
        charisma: AttributeLevel::Average,
        health,
    }
}

#[test]
fn round_plain_hits_subtract_strength_rank() {
    // First fighter: strength Excellent (5), agility Terrible (1), so its
    // bias is 54. Opponent: strength Terrible, agility Excellent, so it
    // evades below 54 and crits below 46. Draws of 60 land plain hits
    // both ways: 5 off the opponent, 1 off the first fighter.
    let (me, other) = duel_round(
        AttributeLevel::Excellent,
        AttributeLevel::Terrible,
        100,
        AttributeLevel::Terrible,
        AttributeLevel::Excellent,
        100,
        60,
        60,
        60,
        60,
    );
    assert_eq!(other, 95);
    assert_eq!(me, 99);
}

#[test]
fn round_evasion_blocks_all_damage() {
    // A first draw under the opponent's agility bias (54) evades the
    // attack; a third draw under the first fighter's strength bias (54)
    // evades the counter.
    let (me, other) = duel_round(
        AttributeLevel::Excellent,
        AttributeLevel::Terrible,
        100,
        AttributeLevel::Terrible,
        AttributeLevel::Excellent,
        100,
        10,
        60,
        10,
        60,
    );
    assert_eq!(other, 100);
    assert_eq!(me, 100);
}

#[test]
fn round_critical_doubles_the_damage() {
    // Second draw under the attacker's strength bias doubles 5 to 10;
    // fourth draw under the opponent's strength bias (46) doubles 1 to 2.
    let (me, other) = duel_round(
        AttributeLevel::Excellent,
        AttributeLevel::Terrible,
        100,
        AttributeLevel::Terrible,
        AttributeLevel::Excellent,
        100,
        60,
        10,
        60,
        10,
    );
    assert_eq!(other, 90);
    assert_eq!(me, 98);
}

#[test]
fn round_health_floors_at_zero() {
    let (_, other) = duel_round(
        AttributeLevel::Excellent,
        AttributeLevel::Terrible,
        100,
        AttributeLevel::Terrible,
        AttributeLevel::Excellent,
        3,
        60,
        10,
        10,
        60,
    );
    assert_eq!(other, 0);
}

#[test]
fn round_opponent_strikes_back_even_when_felled() {
    // The opponent drops to zero from the first blow but still lands its
    // counter in the same round.
    let (me, other) = duel_round(
        AttributeLevel::Excellent,
        AttributeLevel::Terrible,
        100,
        AttributeLevel::Terrible,
        AttributeLevel::Excellent,
        2,
        60,
        60,
        60,
        60,
    );
    assert_eq!(other, 0);
    assert_eq!(me, 99);
}

#[test]
fn fight_against_a_downed_opponent_is_won_standing() {
    let mut me = Entity::Goblin(goblin(AttributeLevel::Average, AttributeLevel::Average, 80));
    let other = Entity::Goblin(goblin(AttributeLevel::Average, AttributeLevel::Average, 0));
    let r = me.fight(other);
    assert_eq!(r, Ok(true));
    match me {
        Entity::Goblin(g) => assert_eq!(g.health, 80),
        Entity::Elf(_) => panic!("the combatant changed kind"),
    }
}

#[test]
fn fight_simultaneous_knockout_is_scored_as_a_loss() {
    let mut me = Entity::Goblin(goblin(AttributeLevel::Average, AttributeLevel::Average, 0));
    let other = Entity::Goblin(goblin(AttributeLevel::Average, AttributeLevel::Average, 0));
    let r = me.fight(other);
    assert_eq!(r, Ok(false));
}

#[test]
fn fight_never_raises_health_and_never_crowns_a_dead_winner() {
    let mut me = Entity::Goblin(goblin(AttributeLevel::Good, AttributeLevel::Poor, 40));
    let other = Entity::Goblin(goblin(AttributeLevel::Poor, AttributeLevel::Good, 40));
    let won = me.fight(other).unwrap();
    let left = match &me {
        Entity::Goblin(g) => g.health,
        Entity::Elf(e) => e.health,
    };
    assert!(left <= 40);
    assert_eq!(won, left > 0);
}

#[test]
fn entity_info_reads_health_with_an_adjustment() {
    let g = goblin(AttributeLevel::Good, AttributeLevel::Poor, 70);
    assert_eq!(g.health(None), 70);
    assert_eq!(g.health(Some(-30)), 40);
    assert_eq!(g.health(Some(5)), 75);
    assert_eq!(g.strength(), AttributeLevel::Good);
    assert_eq!(g.agility(), AttributeLevel::Poor);
}

#[test]
fn entity_name_joins_the_parts_with_spaces() {
    let g = goblin(AttributeLevel::Good, AttributeLevel::Poor, 70);
    assert_eq!(g.name(), String::from("grak zar"));
    let e = Entity::Goblin(g);
    assert_eq!(e.name(), String::from("grak zar"));
}
