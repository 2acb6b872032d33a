use stronghold::defs::{
    profession_to_resource, AttributeLevel, Building, BuildingType, Elf, HappinessLevel, Object,
    ObjectType, ResourceType, Role, RoleAbility, Stronghold,
};
use stronghold::game::{GameError, Train, UpgradeBuilding};

fn plain_elf(roles: Vec<RoleAbility>) -> Elf {
    Elf {
        name: vec![String::from("test"), String::from("worker")],
        age: 30,
        patience: AttributeLevel::Average,
        intelligence: AttributeLevel::Average,
        strength: AttributeLevel::Average,
        agility: AttributeLevel::Average,
        obedience: AttributeLevel::Average,
        loyalty: AttributeLevel::Average,
        happiness: HappinessLevel::Content,
        hunger: AttributeLevel::Average,
        thirst: AttributeLevel::Average,
        sleep: AttributeLevel::Average,
        roles,
        task: None,
        task_start: None,
        building: None,
        health: 100,
    }
}

fn unit_of(material: ResourceType) -> Object {
    Object { object_type: ObjectType::Water, resource_type: material }
}

fn units_of(material: ResourceType, n: usize) -> Vec<Object> {
    let mut v = Vec::new();
    for _ in 0..n {
        v.push(unit_of(material));
    }
    v
}

fn count_of(hold: &Stronghold, material: ResourceType) -> usize {
    hold.stockpile.iter().filter(|o| o.resource_type == material).count()
}

fn hold_with(elves: Vec<Elf>, buildings: Vec<Building>, stockpile: Vec<Object>) -> Stronghold {
    Stronghold { name: String::from("hold"), elves, buildings, task_queue: vec![], stockpile }
}

#[test]
fn train_fails_on_short_stockpile_and_leaves_ability_alone() {
    // A Miner at Average (rank 3) needs 4 units of the mine's material;
    // only 3 are there.
    let miner = plain_elf(vec![RoleAbility { role: Role::Miner, ability: AttributeLevel::Average }]);
    let material = profession_to_resource(Role::Miner);
    let mut hold = hold_with(
        vec![miner],
        vec![Building { id: 0, level: 1, building_type: BuildingType::Mine }],
        units_of(material, 3),
    );
    let r = hold.train(0, Role::Miner);
    assert_eq!(r, Err(GameError::InsufficientResources));
    assert_eq!(hold.elves[0].roles[0].ability, AttributeLevel::Average);
    assert_eq!(hold.stockpile.len(), 3);
}

#[test]
fn train_promotes_one_rung_and_consumes_rank_plus_one() {
    let miner = plain_elf(vec![RoleAbility { role: Role::Miner, ability: AttributeLevel::Average }]);
    let material = profession_to_resource(Role::Miner);
    let mut stock = units_of(material, 4);
    stock.push(unit_of(ResourceType::Gold));
    let mut hold = hold_with(
        vec![miner],
        vec![Building { id: 0, level: 1, building_type: BuildingType::Mine }],
        stock,
    );
    let r = hold.train(0, Role::Miner);
    assert_eq!(r, Ok(()));
    assert_eq!(hold.elves[0].roles[0].ability, AttributeLevel::Good);
    assert_eq!(count_of(&hold, material), 0);
    assert_eq!(count_of(&hold, ResourceType::Gold), 1);
}

#[test]
fn train_new_tag_starts_at_the_lowest_rung_for_one_unit() {
    let worker = plain_elf(vec![RoleAbility { role: Role::Cook, ability: AttributeLevel::Good }]);
    let material = profession_to_resource(Role::Miner);
    let mut hold = hold_with(
        vec![worker],
        vec![Building { id: 0, level: 1, building_type: BuildingType::Mine }],
        units_of(material, 2),
    );
    let r = hold.train(0, Role::Miner);
    assert_eq!(r, Ok(()));
    assert_eq!(hold.elves[0].roles.len(), 2);
    assert_eq!(hold.elves[0].roles[1].role, Role::Miner);
    assert_eq!(hold.elves[0].roles[1].ability, AttributeLevel::Terrible);
    assert_eq!(count_of(&hold, material), 1);
}

#[test]
fn train_needs_the_tags_building() {
    let miner = plain_elf(vec![RoleAbility { role: Role::Miner, ability: AttributeLevel::Poor }]);
    let mut hold = hold_with(
        vec![miner],
        vec![Building { id: 0, level: 1, building_type: BuildingType::Farm }],
        units_of(profession_to_resource(Role::Miner), 10),
    );
    let r = hold.train(0, Role::Miner);
    assert_eq!(r, Err(GameError::MissingBuilding));
}

#[test]
fn train_refuses_a_busy_worker() {
    let mut miner =
        plain_elf(vec![RoleAbility { role: Role::Miner, ability: AttributeLevel::Poor }]);
    miner.task = Some(stronghold::defs::Task {
        description: String::from("dig"),
        duration: 5,
        required_building: BuildingType::Mine,
        required_roles: vec![Role::Miner],
        required_objects: vec![],
        produced_objects: vec![],
    });
    miner.task_start = Some(0);
    let mut hold = hold_with(
        vec![miner],
        vec![Building { id: 0, level: 1, building_type: BuildingType::Mine }],
        units_of(profession_to_resource(Role::Miner), 10),
    );
    let r = hold.train(0, Role::Miner);
    assert_eq!(r, Err(GameError::WorkerBusy));
}

#[test]
fn train_saturates_at_the_top_and_then_does_nothing() {
    // From Terrible the costs are 2, 3, 4 and 5 units; after four calls
    // the worker sits at Excellent and a fifth call is a free no-op.
    let miner =
        plain_elf(vec![RoleAbility { role: Role::Miner, ability: AttributeLevel::Terrible }]);
    let material = profession_to_resource(Role::Miner);
    let mut hold = hold_with(
        vec![miner],
        vec![Building { id: 0, level: 1, building_type: BuildingType::Mine }],
        units_of(material, 14),
    );
    let ladder = [
        AttributeLevel::Poor,
        AttributeLevel::Average,
        AttributeLevel::Good,
        AttributeLevel::Excellent,
    ];
    for expected in ladder {
        assert_eq!(hold.train(0, Role::Miner), Ok(()));
        assert_eq!(hold.elves[0].roles[0].ability, expected);
    }
    assert_eq!(count_of(&hold, material), 0);
    assert_eq!(hold.train(0, Role::Miner), Ok(()));
    assert_eq!(hold.elves[0].roles[0].ability, AttributeLevel::Excellent);
}

#[test]
fn upgrade_raises_one_level_for_level_plus_one_units() {
    // A level-2 farm costs exactly 3 units of the farm's material; a
    // stray unit of another material stays put.
    let material = stronghold::defs::building_to_resource(BuildingType::Farm);
    let mut stock = units_of(material, 3);
    stock.push(unit_of(ResourceType::Diamond));
    let mut hold = hold_with(
        vec![],
        vec![Building { id: 0, level: 2, building_type: BuildingType::Farm }],
        stock,
    );
    let r = hold.upgrade_building(BuildingType::Farm);
    assert_eq!(r, Ok(()));
    assert_eq!(hold.buildings[0].level, 3);
    assert_eq!(count_of(&hold, material), 0);
    assert_eq!(count_of(&hold, ResourceType::Diamond), 1);
}

#[test]
fn upgrade_without_a_building_constructs_one_for_one_unit() {
    let material = stronghold::defs::building_to_resource(BuildingType::Forge);
    let mut hold = hold_with(
        vec![],
        vec![Building { id: 0, level: 1, building_type: BuildingType::Farm }],
        units_of(material, 2),
    );
    let r = hold.upgrade_building(BuildingType::Forge);
    assert_eq!(r, Ok(()));
    assert_eq!(hold.buildings.len(), 2);
    assert_eq!(hold.buildings[1].building_type, BuildingType::Forge);
    assert_eq!(hold.buildings[1].level, 1);
    assert_ne!(hold.buildings[1].id, hold.buildings[0].id);
    assert_eq!(count_of(&hold, material), 1);
}

#[test]
fn upgrade_fresh_identifier_skips_gaps() {
    let material = stronghold::defs::building_to_resource(BuildingType::Forge);
    let mut hold = hold_with(
        vec![],
        vec![
            Building { id: 0, level: 1, building_type: BuildingType::Farm },
            Building { id: 5, level: 1, building_type: BuildingType::Mine },
        ],
        units_of(material, 1),
    );
    assert_eq!(hold.upgrade_building(BuildingType::Forge), Ok(()));
    assert_eq!(hold.buildings[2].id, 6);
}

#[test]
fn upgrade_fails_short_on_a_single_building() {
    let material = stronghold::defs::building_to_resource(BuildingType::Farm);
    let mut hold = hold_with(
        vec![],
        vec![Building { id: 0, level: 4, building_type: BuildingType::Farm }],
        units_of(material, 4),
    );
    let r = hold.upgrade_building(BuildingType::Farm);
    assert_eq!(r, Err(GameError::InsufficientResources));
    assert_eq!(hold.buildings[0].level, 4);
    assert_eq!(count_of(&hold, material), 4);
}

#[test]
fn upgrade_batch_keeps_earlier_upgrades_on_failure() {
    // Two farms at levels 1 and 5 with only 2 units: the first upgrade
    // (cost 2) commits, the second (cost 6) fails the whole call.
    let material = stronghold::defs::building_to_resource(BuildingType::Farm);
    let mut hold = hold_with(
        vec![],
        vec![
            Building { id: 0, level: 1, building_type: BuildingType::Farm },
            Building { id: 1, level: 5, building_type: BuildingType::Farm },
        ],
        units_of(material, 2),
    );
    let r = hold.upgrade_building(BuildingType::Farm);
    assert_eq!(r, Err(GameError::InsufficientResources));
    assert_eq!(hold.buildings[0].level, 2);
    assert_eq!(hold.buildings[1].level, 5);
    assert_eq!(count_of(&hold, material), 0);
}

#[test]
fn upgrade_with_empty_stockpile_builds_nothing() {
    let mut hold = hold_with(vec![], vec![], vec![]);
    let r = hold.upgrade_building(BuildingType::Wall);
    assert_eq!(r, Err(GameError::InsufficientResources));
    assert_eq!(hold.buildings.len(), 0);
}
