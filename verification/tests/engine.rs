use stronghold::assign::TaskOperations;
use stronghold::defs::{
    AttributeLevel, Building, BuildingType, Elf, HappinessLevel, Object, ObjectType, ResourceType,
    Role, RoleAbility, Stronghold, Task,
};
use stronghold::game::GameError;

fn plain_elf(roles: Vec<RoleAbility>) -> Elf {
    Elf {
        name: vec![String::from("test"), String::from("worker")],
        age: 30,
        patience: AttributeLevel::Average,
        intelligence: AttributeLevel::Average,
        strength: AttributeLevel::Average,
        agility: AttributeLevel::Average,
        obedience: AttributeLevel::Average,
        loyalty: AttributeLevel::Average,
        happiness: HappinessLevel::Content,
        hunger: AttributeLevel::Average,
        thirst: AttributeLevel::Average,
        sleep: AttributeLevel::Average,
        roles,
        task: None,
        task_start: None,
        building: None,
        health: 100,
    }
}

fn ability(role: Role, level: AttributeLevel) -> RoleAbility {
    RoleAbility { role, ability: level }
}

fn plain_task(required_building: BuildingType, required_roles: Vec<Role>) -> Task {
    Task {
        description: String::from("test order"),
        duration: 10,
        required_building,
        required_roles,
        required_objects: vec![],
        produced_objects: vec![],
    }
}

fn barracks_hold(elves: Vec<Elf>) -> Stronghold {
    Stronghold {
        name: String::from("hold"),
        elves,
        buildings: vec![Building { id: 0, level: 1, building_type: BuildingType::Barracks }],
        task_queue: vec![],
        stockpile: vec![],
    }
}

#[test]
fn submit_assigns_highest_summed_rank() {
    // Workers A (Warrior at Good) and B (Warrior at Poor), both idle:
    // the order goes to A and B stays idle.
    let a = plain_elf(vec![ability(Role::Warrior, AttributeLevel::Good)]);
    let b = plain_elf(vec![ability(Role::Warrior, AttributeLevel::Poor)]);
    let mut hold = barracks_hold(vec![a, b]);
    let r = hold.new_task(plain_task(BuildingType::Barracks, vec![Role::Warrior]), 7);
    assert_eq!(r, Ok(true));
    assert!(hold.elves[0].task.is_some());
    assert_eq!(hold.elves[0].task_start, Some(7));
    assert!(hold.elves[1].task.is_none());
    assert_eq!(hold.task_queue.len(), 0);
}

#[test]
fn submit_tie_goes_to_earliest_worker() {
    let a = plain_elf(vec![ability(Role::Warrior, AttributeLevel::Good)]);
    let b = plain_elf(vec![ability(Role::Warrior, AttributeLevel::Good)]);
    let mut hold = barracks_hold(vec![a, b]);
    let r = hold.new_task(plain_task(BuildingType::Barracks, vec![Role::Warrior]), 0);
    assert_eq!(r, Ok(true));
    assert!(hold.elves[0].task.is_some());
    assert!(hold.elves[1].task.is_none());
}

#[test]
fn submit_sums_over_all_required_tags() {
    // A: Warrior Good only (sum 4 over two tags); B: Warrior Poor and
    // Miner Good (sum 6). The order requiring both tags goes to B.
    let a = plain_elf(vec![
        ability(Role::Warrior, AttributeLevel::Good),
        ability(Role::Miner, AttributeLevel::Poor),
    ]);
    let b = plain_elf(vec![
        ability(Role::Warrior, AttributeLevel::Poor),
        ability(Role::Miner, AttributeLevel::Excellent),
    ]);
    let mut hold = barracks_hold(vec![a, b]);
    let r = hold.new_task(
        plain_task(BuildingType::Barracks, vec![Role::Warrior, Role::Miner]),
        0,
    );
    assert_eq!(r, Ok(true));
    assert!(hold.elves[0].task.is_none());
    assert!(hold.elves[1].task.is_some());
}

#[test]
fn submit_requires_every_tag_not_just_one() {
    // The only idle worker holds just one of the two required tags, and
    // nobody holds both: no worker is suitable.
    let a = plain_elf(vec![ability(Role::Warrior, AttributeLevel::Excellent)]);
    let mut hold = barracks_hold(vec![a]);
    let r = hold.new_task(
        plain_task(BuildingType::Barracks, vec![Role::Warrior, Role::Miner]),
        0,
    );
    assert_eq!(r, Err(GameError::NoSuitableWorker));
}

#[test]
fn submit_defers_when_only_busy_workers_qualify() {
    // One busy Farmer and no idle one: the order is queued, exactly once.
    let mut farmer = plain_elf(vec![ability(Role::Farmer, AttributeLevel::Average)]);
    farmer.task = Some(plain_task(BuildingType::Farm, vec![Role::Farmer]));
    farmer.task_start = Some(0);
    let mut hold = Stronghold {
        name: String::from("hold"),
        elves: vec![farmer],
        buildings: vec![Building { id: 0, level: 1, building_type: BuildingType::Farm }],
        task_queue: vec![],
        stockpile: vec![],
    };
    let r = hold.new_task(plain_task(BuildingType::Farm, vec![Role::Farmer]), 1);
    assert_eq!(r, Ok(false));
    assert_eq!(hold.task_queue.len(), 1);
    assert!(hold.elves[0].task.is_some());
}

#[test]
fn submit_rejects_unreachable_order() {
    // Nobody in the settlement holds the tag, idle or busy: the order is
    // rejected rather than queued.
    let a = plain_elf(vec![ability(Role::Cook, AttributeLevel::Excellent)]);
    let mut hold = barracks_hold(vec![a]);
    let r = hold.new_task(plain_task(BuildingType::Barracks, vec![Role::Warrior]), 0);
    assert_eq!(r, Err(GameError::NoSuitableWorker));
    assert_eq!(hold.task_queue.len(), 0);
}

#[test]
fn submit_needs_the_required_building() {
    let a = plain_elf(vec![ability(Role::Farmer, AttributeLevel::Good)]);
    let mut hold = barracks_hold(vec![a]);
    let r = hold.new_task(plain_task(BuildingType::Farm, vec![Role::Farmer]), 0);
    assert_eq!(r, Err(GameError::MissingBuilding));
}

#[test]
fn completion_uses_elapsed_time() {
    // Started at tick 3 with duration 10: still running at tick 12,
    // complete at tick 13.
    let mut w = plain_elf(vec![ability(Role::Warrior, AttributeLevel::Good)]);
    w.task = Some(plain_task(BuildingType::Barracks, vec![Role::Warrior]));
    w.task_start = Some(3);
    let mut hold = barracks_hold(vec![w]);
    let early = hold.check_tasks_complete(12).unwrap();
    assert_eq!(early.len(), 0);
    assert!(hold.elves[0].task.is_some());
    let done = hold.check_tasks_complete(13).unwrap();
    assert_eq!(done.len(), 0);
    assert!(hold.elves[0].task.is_none());
    assert!(hold.elves[0].task_start.is_none());
}

#[test]
fn completion_merges_produced_objects() {
    let mut task = plain_task(BuildingType::Barracks, vec![Role::Warrior]);
    task.duration = 2;
    task.produced_objects = vec![
        Object { object_type: ObjectType::Water, resource_type: ResourceType::Glass },
        Object { object_type: ObjectType::Water, resource_type: ResourceType::Glass },
    ];
    let mut w = plain_elf(vec![ability(Role::Warrior, AttributeLevel::Good)]);
    w.task = Some(task);
    w.task_start = Some(0);
    let mut hold = barracks_hold(vec![w]);
    let produced = hold.check_tasks_complete(2).unwrap();
    assert_eq!(produced.len(), 2);
    assert_eq!(hold.stockpile.len(), 2);
    assert_eq!(hold.stockpile[0].resource_type, ResourceType::Glass);
    assert!(hold.elves[0].task.is_none());
}

#[test]
fn completion_without_start_counts_from_zero() {
    let mut task = plain_task(BuildingType::Barracks, vec![Role::Warrior]);
    task.duration = 3;
    let mut w = plain_elf(vec![ability(Role::Warrior, AttributeLevel::Good)]);
    w.task = Some(task);
    w.task_start = None;
    let mut hold = barracks_hold(vec![w]);
    hold.check_tasks_complete(5).unwrap();
    assert!(hold.elves[0].task.is_none());
}

#[test]
fn list_tasks_prefers_the_workers_own_assignment() {
    let mut w = plain_elf(vec![ability(Role::Warrior, AttributeLevel::Good)]);
    w.task = Some(plain_task(BuildingType::Barracks, vec![Role::Warrior]));
    let mut hold = barracks_hold(vec![]);
    hold.task_queue.push(plain_task(BuildingType::Barracks, vec![Role::Miner]));
    hold.task_queue.push(plain_task(BuildingType::Barracks, vec![Role::Cook]));
    let own = hold.list_tasks(Some(&w)).unwrap();
    assert_eq!(own.len(), 1);
    assert_eq!(own[0].required_roles, vec![Role::Warrior]);
    let queued = hold.list_tasks(None).unwrap();
    assert_eq!(queued.len(), 2);
    assert_eq!(queued[0].required_roles, vec![Role::Miner]);
    let idle = plain_elf(vec![]);
    let for_idle = hold.list_tasks(Some(&idle)).unwrap();
    assert_eq!(for_idle.len(), 2);
}
