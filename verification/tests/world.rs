use stronghold::assign::TaskOperations;
use stronghold::defs::{
    building_to_profession, profession_to_building, AttributeLevel, Building, BuildingType, Elf,
    Goblin, HappinessLevel, ObjectType, Random, ResourceType, Role, Task, World,
};
use stronghold::entities::NewEntity;
use stronghold::game::{GameError, GameOptions};
use stronghold::rng::random_below;

#[test]
fn mappings_are_inverse_outside_the_shared_buildings() {
    for role in [
        Role::Warrior,
        Role::Farmer,
        Role::Hunter,
        Role::Gatherer,
        Role::Carpenter,
        Role::Stonemason,
        Role::Blacksmith,
        Role::Tailor,
        Role::Cook,
        Role::Healer,
        Role::Herbalist,
        Role::Alchemist,
        Role::Miner,
        Role::Builder,
        Role::Scientist,
        Role::Trader,
    ] {
        assert_eq!(building_to_profession(profession_to_building(role)), role);
    }
    // The leadership tags share the meeting hall, which answers to the
    // elders; the military structures answer to the warriors.
    assert_eq!(profession_to_building(Role::Leader), BuildingType::MeetingHall);
    assert_eq!(profession_to_building(Role::StrongholdMaster), BuildingType::MeetingHall);
    assert_eq!(building_to_profession(BuildingType::MeetingHall), Role::Elder);
    assert_eq!(building_to_profession(BuildingType::Tower), Role::Warrior);
    assert_eq!(building_to_profession(BuildingType::Wall), Role::Warrior);
}

#[test]
fn attribute_ranks_run_one_to_five() {
    assert_eq!(AttributeLevel::Terrible.rank(), 1);
    assert_eq!(AttributeLevel::Poor.rank(), 2);
    assert_eq!(AttributeLevel::Average.rank(), 3);
    assert_eq!(AttributeLevel::Good.rank(), 4);
    assert_eq!(AttributeLevel::Excellent.rank(), 5);
    assert_eq!(HappinessLevel::Depressed.rank(), 0);
    assert_eq!(HappinessLevel::Ecstatic.rank(), 5);
}

#[test]
fn promotion_climbs_one_rung_and_sticks_at_the_top() {
    assert_eq!(AttributeLevel::Terrible.promoted(), AttributeLevel::Poor);
    assert_eq!(AttributeLevel::Good.promoted(), AttributeLevel::Excellent);
    assert_eq!(AttributeLevel::Excellent.promoted(), AttributeLevel::Excellent);
}

#[test]
fn bounded_draws_stay_in_range() {
    for n in [1u32, 2, 5, 19, 100] {
        for _ in 0..20 {
            assert!(random_below(n) < n);
        }
    }
}

#[test]
fn random_roles_are_never_the_degenerate_tag() {
    for _ in 0..100 {
        assert_ne!(Role::random(), Role::Nitwit);
    }
}

#[test]
fn new_worker_keeps_given_tags_and_pads_to_three() {
    let e = Elf::new(Some(42), Some(String::from("oak")), Some(vec![Role::Warrior, Role::Cook]));
    assert_eq!(e.health, 100);
    assert!(e.task.is_none());
    assert!(e.task_start.is_none());
    assert_eq!(e.age, 42);
    assert_eq!(e.name.len(), 2);
    assert_eq!(e.name[1], String::from("oak"));
    assert_eq!(e.roles.len(), 3);
    assert_eq!(e.roles[0].role, Role::Warrior);
    assert_eq!(e.roles[1].role, Role::Cook);
    assert_ne!(e.roles[2].role, Role::Nitwit);
    assert_ne!(e.roles[2].role, Role::Warrior);
    assert_ne!(e.roles[2].role, Role::Cook);
}

#[test]
fn new_worker_deduplicates_given_tags() {
    let e = Elf::new(
        Some(30),
        None,
        Some(vec![Role::Miner, Role::Miner, Role::Cook, Role::Miner, Role::Cook]),
    );
    assert_eq!(e.roles.len(), 3);
    assert_eq!(e.roles[0].role, Role::Miner);
    assert_eq!(e.roles[1].role, Role::Cook);
}

#[test]
fn new_worker_with_the_degenerate_tag_holds_nothing_else() {
    let e = Elf::new(Some(30), None, Some(vec![Role::Nitwit, Role::Warrior, Role::Cook]));
    assert_eq!(e.roles.len(), 1);
    assert_eq!(e.roles[0].role, Role::Nitwit);
}

#[test]
fn new_worker_without_tags_draws_three_distinct_ones() {
    for _ in 0..20 {
        let e = Elf::new(None, None, None);
        assert_eq!(e.roles.len(), 3);
        assert!(18 <= e.age && e.age < 100);
        let tags: Vec<Role> = e.roles.iter().map(|ra| ra.role).collect();
        assert_ne!(tags[0], tags[1]);
        assert_ne!(tags[0], tags[2]);
        assert_ne!(tags[1], tags[2]);
        assert!(!tags.contains(&Role::Nitwit));
    }
}

#[test]
fn new_creature_starts_at_full_health() {
    let g = Goblin::new(Some(50), Some(String::from("zar")), None);
    assert_eq!(g.health, 100);
    assert_eq!(g.age, 50);
    assert_eq!(g.name.len(), 2);
    assert_eq!(g.name[1], String::from("zar"));
    let wild = Goblin::new(None, None, None);
    assert!(18 <= wild.age && wild.age < 100);
}

#[test]
fn a_new_world_is_seeded_as_promised() {
    let w = World::new(Some(String::from("Aldera")), Some(String::from("keeper")));
    assert_eq!(w.tick, 0);
    assert_eq!(w.name, String::from("Aldera"));
    assert_eq!(w.colonies.len(), 1);
    let colony = &w.colonies[0];
    assert_eq!(colony.name, String::from("Aldera"));
    assert_eq!(colony.leader, String::from("keeper"));
    assert_eq!(colony.strongholds.len(), 1);
    let hold = &colony.strongholds[0];
    assert_eq!(hold.name, String::from("First Stronghold of Aldera Colony"));
    assert_eq!(hold.elves.len(), 11);
    assert_eq!(hold.task_queue.len(), 0);
    assert_eq!(
        hold.buildings,
        vec![
            Building { id: 0, level: 1, building_type: BuildingType::MeetingHall },
            Building { id: 1, level: 1, building_type: BuildingType::Barracks },
            Building { id: 2, level: 1, building_type: BuildingType::Farm },
        ]
    );
    assert_eq!(hold.stockpile.len(), 660);
    let food = hold
        .stockpile
        .iter()
        .filter(|o| matches!(o.object_type, ObjectType::Food { .. }))
        .count();
    let water = hold
        .stockpile
        .iter()
        .filter(|o| matches!(o.object_type, ObjectType::Water))
        .count();
    assert_eq!(food, 110);
    assert_eq!(water, 550);
    assert_eq!(hold.stockpile[0].resource_type, ResourceType::Animal);
    assert_eq!(hold.stockpile[659].resource_type, ResourceType::Glass);
    assert_eq!(hold.elves[0].roles[0].role, Role::Leader);
    assert_eq!(hold.elves[0].roles[1].role, Role::Elder);
    assert_eq!(hold.elves[10].roles[0].role, Role::Miner);
    for e in &hold.elves {
        assert_eq!(e.health, 100);
        assert!(e.task.is_none());
    }
}

#[test]
fn a_new_world_falls_back_to_stock_names() {
    let w = World::new(None, None);
    assert_eq!(w.name, String::from("World"));
    assert_eq!(w.colonies[0].name, String::from("Earth"));
    assert_eq!(w.colonies[0].leader, String::from("Player"));
    assert_eq!(
        w.colonies[0].strongholds[0].name,
        String::from("First Stronghold of Earth Colony")
    );
}

fn fixed_worker(roles: Vec<Role>) -> Elf {
    let abilities = roles
        .into_iter()
        .map(|role| stronghold::defs::RoleAbility { role, ability: AttributeLevel::Average })
        .collect();
    Elf {
        name: vec![String::from("test"), String::from("worker")],
        age: 30,
        patience: AttributeLevel::Average,
        intelligence: AttributeLevel::Average,
        strength: AttributeLevel::Average,
        agility: AttributeLevel::Average,
        obedience: AttributeLevel::Average,
        loyalty: AttributeLevel::Average,
        happiness: HappinessLevel::Content,
        hunger: AttributeLevel::Average,
        thirst: AttributeLevel::Average,
        sleep: AttributeLevel::Average,
        roles: abilities,
        task: None,
        task_start: None,
        building: None,
        health: 100,
    }
}

fn small_world(elves: Vec<Elf>, buildings: Vec<Building>) -> World {
    World {
        name: String::from("Testia"),
        colonies: vec![stronghold::defs::Colony {
            name: String::from("Testia"),
            strongholds: vec![stronghold::defs::Stronghold {
                name: String::from("hold"),
                elves,
                buildings,
                task_queue: vec![],
                stockpile: vec![],
            }],
            leader: String::from("tester"),
        }],
        tick: 0,
    }
}

fn farm_task(duration: u32, produced: Vec<stronghold::defs::Object>) -> Task {
    Task {
        description: String::from("sow"),
        duration,
        required_building: BuildingType::Farm,
        required_roles: vec![Role::Farmer],
        required_objects: vec![],
        produced_objects: produced,
    }
}

#[test]
fn tick_assigns_queued_work_and_advances_the_clock() {
    let mut w = small_world(
        vec![fixed_worker(vec![Role::Farmer])],
        vec![Building { id: 0, level: 1, building_type: BuildingType::Farm }],
    );
    w.colonies[0].strongholds[0].task_queue.push(farm_task(10, vec![]));
    assert_eq!(w.tick(), Ok(()));
    assert_eq!(w.tick, 1);
    let hold = &w.colonies[0].strongholds[0];
    assert_eq!(hold.task_queue.len(), 0);
    assert!(hold.elves[0].task.is_some());
    assert_eq!(hold.elves[0].task_start, Some(0));
}

#[test]
fn tick_retires_finished_work_and_banks_its_produce() {
    let mut w = small_world(
        vec![fixed_worker(vec![Role::Farmer])],
        vec![Building { id: 0, level: 1, building_type: BuildingType::Farm }],
    );
    let produce = stronghold::defs::Object {
        object_type: ObjectType::Water,
        resource_type: ResourceType::Gold,
    };
    w.colonies[0].strongholds[0].task_queue.push(farm_task(3, vec![produce]));
    assert_eq!(w.tick(), Ok(()));
    assert!(w.colonies[0].strongholds[0].elves[0].task.is_some());
    for _ in 0..3 {
        assert_eq!(w.tick(), Ok(()));
    }
    let hold = &w.colonies[0].strongholds[0];
    assert!(hold.elves[0].task.is_none());
    assert_eq!(hold.stockpile.len(), 1);
    assert_eq!(hold.stockpile[0].resource_type, ResourceType::Gold);
    assert_eq!(w.tick, 4);
}

#[test]
fn tick_propagates_the_first_drain_error_and_keeps_the_clock() {
    let mut w = small_world(
        vec![fixed_worker(vec![Role::Farmer])],
        vec![Building { id: 0, level: 1, building_type: BuildingType::Farm }],
    );
    let task = Task {
        description: String::from("smelt"),
        duration: 2,
        required_building: BuildingType::Forge,
        required_roles: vec![Role::Blacksmith],
        required_objects: vec![],
        produced_objects: vec![],
    };
    w.colonies[0].strongholds[0].task_queue.push(task);
    assert_eq!(w.tick(), Err(GameError::MissingBuilding));
    assert_eq!(w.tick, 0);
    assert_eq!(w.colonies[0].strongholds[0].task_queue.len(), 1);
}

#[test]
fn tick_leaves_a_deferrable_entry_in_place_without_duplicating_it() {
    // Keep the only farmer busy, then queue a second order for a farmer:
    // every tick re-checks it, leaves it queued once, and never copies it.
    let mut w = small_world(
        vec![fixed_worker(vec![Role::Farmer])],
        vec![Building { id: 0, level: 1, building_type: BuildingType::Farm }],
    );
    {
        let hold = &mut w.colonies[0].strongholds[0];
        assert_eq!(hold.new_task(farm_task(1000, vec![]), 0), Ok(true));
        assert_eq!(hold.new_task(farm_task(5, vec![]), 0), Ok(false));
        assert_eq!(hold.task_queue.len(), 1);
    }
    for _ in 0..3 {
        assert_eq!(w.tick(), Ok(()));
        assert_eq!(w.colonies[0].strongholds[0].task_queue.len(), 1);
    }
}
