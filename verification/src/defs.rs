//! Core data model: attribute scales, capability tags, resources, objects,
//! work orders, workers, buildings and the settlement that owns them.

use vstd::prelude::*;

verus! {

/// Ordered five-point scale used both as a qualitative descriptor and,
/// through its numeric rank, as a skill or power weight.
#[derive(Debug, Clone, Copy, PartialEq, Eq, Structural)]
pub enum AttributeLevel {
    Excellent,
    Good,
    Average,
    Poor,
    Terrible,
}

impl AttributeLevel {
    /// Numeric rank of the level: Terrible is 1, Excellent is 5.
    pub open spec fn spec_rank(self) -> int {
        match self {
            AttributeLevel::Excellent => 5,
            AttributeLevel::Good => 4,
            AttributeLevel::Average => 3,
            AttributeLevel::Poor => 2,
            AttributeLevel::Terrible => 1,
        }
    }

    /// Executable numeric rank; agrees with `spec_rank`.
    pub fn rank(self) -> (r: u32)
        ensures
            r == self.spec_rank(),
    {
        match self {
            AttributeLevel::Excellent => 5,
            AttributeLevel::Good => 4,
            AttributeLevel::Average => 3,
            AttributeLevel::Poor => 2,
            AttributeLevel::Terrible => 1,
        }
    }

    /// The level one rung up the fixed ladder; Excellent is absorbing.
    pub open spec fn spec_promoted(self) -> AttributeLevel {
        match self {
            AttributeLevel::Terrible => AttributeLevel::Poor,
            AttributeLevel::Poor => AttributeLevel::Average,
            AttributeLevel::Average => AttributeLevel::Good,
            AttributeLevel::Good => AttributeLevel::Excellent,
            AttributeLevel::Excellent => AttributeLevel::Excellent,
        }
    }

    /// Executable promotion; agrees with `spec_promoted`.
    pub fn promoted(self) -> (r: AttributeLevel)
        ensures
            r == self.spec_promoted(),
    {
        match self {
            AttributeLevel::Terrible => AttributeLevel::Poor,
            AttributeLevel::Poor => AttributeLevel::Average,
            AttributeLevel::Average => AttributeLevel::Good,
            AttributeLevel::Good => AttributeLevel::Excellent,
            AttributeLevel::Excellent => AttributeLevel::Excellent,
        }
    }
}

/// Worker mood on a six-point scale.
#[derive(Debug, Clone, Copy, PartialEq, Eq, Structural)]
pub enum HappinessLevel {
    Ecstatic,
    Happy,
    Content,
    Unhappy,
    Miserable,
    Depressed,
}

impl HappinessLevel {
    /// Numeric rank of the mood: Depressed is 0, Ecstatic is 5.
    pub open spec fn spec_rank(self) -> int {
        match self {
            HappinessLevel::Ecstatic => 5,
            HappinessLevel::Happy => 4,
            HappinessLevel::Content => 3,
            HappinessLevel::Unhappy => 2,
            HappinessLevel::Miserable => 1,
            HappinessLevel::Depressed => 0,
        }
    }

    /// Executable numeric rank; agrees with `spec_rank`.
    pub fn rank(self) -> (r: u32)
        ensures
            r == self.spec_rank(),
    {
        match self {
            HappinessLevel::Ecstatic => 5,
            HappinessLevel::Happy => 4,
            HappinessLevel::Content => 3,
            HappinessLevel::Unhappy => 2,
            HappinessLevel::Miserable => 1,
            HappinessLevel::Depressed => 0,
        }
    }
}

/// Capability tag a worker may hold. Every tag maps to exactly one building
/// type; the three leadership tags share the communal meeting hall, and the
/// degenerate Nitwit tag marks a worker that can perform no task.
#[derive(Debug, Clone, Copy, PartialEq, Eq, Structural)]
pub enum Role {
    Elder,
    Leader,
    StrongholdMaster,
    Warrior,
    Farmer,
    Hunter,
    Gatherer,
    Carpenter,
    Stonemason,
    Blacksmith,
    Tailor,
    Cook,
    Healer,
    Herbalist,
    Alchemist,
    Miner,
    Builder,
    Scientist,
    Trader,
    Nitwit,
}

/// Material category an object is made from.
#[derive(Debug, Clone, Copy, PartialEq, Eq, Structural)]
pub enum ResourceType {
    Wood,
    Stone,
    Iron,
    Diamond,
    Gold,
    Cloth,
    Glass,
    Animal,
}

/// Functional category of an object, with its payload.
#[derive(Debug)]
pub enum ObjectType {
    Food { name: String, description: String, hunger_power: u32 },
    Water,
    Medicine { name: String, description: String, healing_power: u32 },
    Potion {
        name: String,
        description: String,
        healing_power: u32,
        strength_power: u32,
        agility_power: u32,
        intelligence_power: u32,
        obedience_power: u32,
        loyalty_power: u32,
        effect_length: u32,
    },
    Weapon {
        name: String,
        description: String,
        damage_power: u32,
        agility_requirement: AttributeLevel,
        agility_penalty: AttributeLevel,
    },
    Armor {
        name: String,
        description: String,
        defense_power: u32,
        agility_requirement: AttributeLevel,
        agility_penalty: AttributeLevel,
    },
    PickAxe {
        name: String,
        description: String,
        breaking_power: u32,
        agility_requirement: AttributeLevel,
        agility_penalty: AttributeLevel,
    },
}

impl Clone for ObjectType {
    fn clone(&self) -> (r: Self)
        ensures
            r == *self,
    {
        match self {
            ObjectType::Food { name, description, hunger_power } => ObjectType::Food {
                name: name.clone(),
                description: description.clone(),
                hunger_power: *hunger_power,
            },
            ObjectType::Water => ObjectType::Water,
            ObjectType::Medicine { name, description, healing_power } => ObjectType::Medicine {
                name: name.clone(),
                description: description.clone(),
                healing_power: *healing_power,
            },
            ObjectType::Potion {
                name,
                description,
                healing_power,
                strength_power,
                agility_power,
                intelligence_power,
                obedience_power,
                loyalty_power,
                effect_length,
            } => ObjectType::Potion {
                name: name.clone(),
                description: description.clone(),
                healing_power: *healing_power,
                strength_power: *strength_power,
                agility_power: *agility_power,
                intelligence_power: *intelligence_power,
                obedience_power: *obedience_power,
                loyalty_power: *loyalty_power,
                effect_length: *effect_length,
            },
            ObjectType::Weapon { name, description, damage_power, agility_requirement, agility_penalty } => ObjectType::Weapon {
                name: name.clone(),
                description: description.clone(),
                damage_power: *damage_power,
                agility_requirement: *agility_requirement,
                agility_penalty: *agility_penalty,
            },
            ObjectType::Armor { name, description, defense_power, agility_requirement, agility_penalty } => ObjectType::Armor {
                name: name.clone(),
                description: description.clone(),
                defense_power: *defense_power,
                agility_requirement: *agility_requirement,
                agility_penalty: *agility_penalty,
            },
            ObjectType::PickAxe { name, description, breaking_power, agility_requirement, agility_penalty } => ObjectType::PickAxe {
                name: name.clone(),
                description: description.clone(),
                breaking_power: *breaking_power,
                agility_requirement: *agility_requirement,
                agility_penalty: *agility_penalty,
            },
        }
    }
}

/// One unit in the stockpile: a functional category made from a material.
#[derive(Debug)]
pub struct Object {
    pub object_type: ObjectType,
    pub resource_type: ResourceType,
}

impl Clone for Object {
    fn clone(&self) -> (r: Self)
        ensures
            r == *self,
    {
        Object { object_type: self.object_type.clone(), resource_type: self.resource_type }
    }
}

/// A work order: what it needs, how long it runs, and what it produces.
#[derive(Debug)]
pub struct Task {
    /// Name and synopsis of the work order.
    pub description: String,
    /// Duration in logical ticks.
    pub duration: u32,
    /// Building type the settlement must own.
    pub required_building: BuildingType,
    /// Capability tags the one assigned worker must hold, all of them.
    pub required_roles: Vec<Role>,
    /// Objects that must be present in the stockpile to perform the order.
    pub required_objects: Vec<Object>,
    /// Objects emitted into the stockpile on completion.
    pub produced_objects: Vec<Object>,
}

impl Clone for Task {
    fn clone(&self) -> (r: Self)
        ensures
            r.description == self.description,
            r.duration == self.duration,
            r.required_building == self.required_building,
            r.required_roles@ == self.required_roles@,
            r.required_objects@ == self.required_objects@,
            r.produced_objects@ == self.produced_objects@,
    {
        Task {
            description: self.description.clone(),
            duration: self.duration,
            required_building: self.required_building,
            required_roles: self.required_roles.clone(),
            required_objects: clone_objects(&self.required_objects),
            produced_objects: clone_objects(&self.produced_objects),
        }
    }
}

/// Two work orders that agree in every field.
pub open spec fn same_task(a: Task, b: Task) -> bool {
    &&& a.description == b.description
    &&& a.duration == b.duration
    &&& a.required_building == b.required_building
    &&& a.required_roles@ == b.required_roles@
    &&& a.required_objects@ == b.required_objects@
    &&& a.produced_objects@ == b.produced_objects@
}

/// Two work-order lists whose entries agree pairwise.
pub open spec fn same_tasks(a: Seq<Task>, b: Seq<Task>) -> bool {
    a.len() == b.len() && forall|i: int| 0 <= i < a.len() ==> #[trigger] same_task(a[i], b[i])
}

/// Element-wise copy of a list of work orders.
pub fn clone_tasks(v: &Vec<Task>) -> (r: Vec<Task>)
    ensures
        same_tasks(r@, v@),
{
    let mut r: Vec<Task> = Vec::new();
    let n: usize = v.len();
    for i in 0..n
        invariant
            n == v@.len(),
            r@.len() == i,
            forall|j: int| 0 <= j < i ==> #[trigger] same_task(r@[j], v@[j]),
    {
        r.push(v[i].clone());
    }
    r
}

/// Element-wise copy of a list of objects.
pub fn clone_objects(v: &Vec<Object>) -> (r: Vec<Object>)
    ensures
        r@ == v@,
{
    let mut r: Vec<Object> = Vec::new();
    let n: usize = v.len();
    for i in 0..n
        invariant
            n == v@.len(),
            r@ == v@.subrange(0, i as int),
    {
        r.push(v[i].clone());
        assert(r@ =~= v@.subrange(0, i + 1));
    }
    assert(r@ =~= v@);
    r
}

/// How well a worker performs a capability: a tag with a proficiency level.
#[derive(Debug, Clone, Copy, PartialEq, Eq, Structural)]
pub struct RoleAbility {
    pub role: Role,
    pub ability: AttributeLevel,
}

/// A worker in the settlement.
#[derive(Debug)]
pub struct Elf {
    /// Name parts (for example first and last).
    pub name: Vec<String>,
    /// Age in whole years.
    pub age: u32,
    pub patience: AttributeLevel,
    pub intelligence: AttributeLevel,
    pub strength: AttributeLevel,
    pub agility: AttributeLevel,
    pub obedience: AttributeLevel,
    pub loyalty: AttributeLevel,
    pub happiness: HappinessLevel,
    pub hunger: AttributeLevel,
    pub thirst: AttributeLevel,
    pub sleep: AttributeLevel,
    /// Capabilities the worker holds; tags are unique, and Nitwit excludes
    /// all others.
    pub roles: Vec<RoleAbility>,
    /// Current work assignment, if any.
    pub task: Option<Task>,
    /// Tick when the current assignment was started.
    pub task_start: Option<u64>,
    /// Identifier of the building the worker is currently in.
    pub building: Option<u32>,
    /// Health in 0 to 100; 0 is dead.
    pub health: u32,
}

/// Building type required by work orders and training.
#[derive(Debug, Clone, Copy, PartialEq, Eq, Structural)]
pub enum BuildingType {
    MeetingHall,
    Barracks,
    Farm,
    HuntingLodge,
    GatheringHut,
    CarpenterWorkshop,
    StonemasonWorkshop,
    Forge,
    TailorShop,
    Kitchen,
    Hospital,
    HerbalistHut,
    AlchemistLab,
    Mine,
    BuilderHut,
    Laboratory,
    Tower,
    Wall,
    TradingPost,
}

/// A building the settlement owns.
#[derive(Debug, Clone, Copy, PartialEq, Eq, Structural)]
pub struct Building {
    /// Unique identifier within the settlement.
    pub id: u32,
    /// Level, starting at 1 and only ever incremented.
    pub level: u32,
    pub building_type: BuildingType,
}

/// The settlement: the unit of exclusive ownership over workers, buildings,
/// the deferred work queue and the stockpile.
#[derive(Debug)]
pub struct Stronghold {
    pub name: String,
    pub elves: Vec<Elf>,
    pub buildings: Vec<Building>,
    /// Deferred work orders awaiting a qualifying idle worker, oldest first.
    pub task_queue: Vec<Task>,
    pub stockpile: Vec<Object>,
}

/// A group of settlements under one banner.
#[derive(Debug)]
pub struct Colony {
    pub name: String,
    pub strongholds: Vec<Stronghold>,
    /// Owner of the colony.
    pub leader: String,
}

/// The whole game state: colonies plus the logical clock.
#[derive(Debug)]
pub struct World {
    pub name: String,
    pub colonies: Vec<Colony>,
    /// Current logical tick.
    pub tick: u64,
}

/// A hostile creature: no capability set, never assigned work.
#[derive(Debug)]
pub struct Goblin {
    pub name: Vec<String>,
    /// Age in whole years.
    pub age: u32,
    pub strength: AttributeLevel,
    pub agility: AttributeLevel,
    pub loyalty: AttributeLevel,
    pub charisma: AttributeLevel,
    /// Health in 0 to 100; 0 is dead.
    pub health: u32,
}

/// Types that can draw a fresh random value of themselves.
pub trait Random: Sized {
    fn random() -> Self;
}

/// Building type where workers with the given tag work and train. The three
/// leadership tags all map to the communal meeting hall, as does Nitwit,
/// which has no building of its own.
pub open spec fn building_for_role(profession: Role) -> BuildingType {
    match profession {
        Role::Elder => BuildingType::MeetingHall,
        Role::Leader => BuildingType::MeetingHall,
        Role::StrongholdMaster => BuildingType::MeetingHall,
        Role::Warrior => BuildingType::Barracks,
        Role::Farmer => BuildingType::Farm,
        Role::Hunter => BuildingType::HuntingLodge,
        Role::Gatherer => BuildingType::GatheringHut,
        Role::Carpenter => BuildingType::CarpenterWorkshop,
        Role::Stonemason => BuildingType::StonemasonWorkshop,
        Role::Blacksmith => BuildingType::Forge,
        Role::Tailor => BuildingType::TailorShop,
        Role::Cook => BuildingType::Kitchen,
        Role::Healer => BuildingType::Hospital,
        Role::Herbalist => BuildingType::HerbalistHut,
        Role::Alchemist => BuildingType::AlchemistLab,
        Role::Miner => BuildingType::Mine,
        Role::Builder => BuildingType::BuilderHut,
        Role::Scientist => BuildingType::Laboratory,
        Role::Trader => BuildingType::TradingPost,
        Role::Nitwit => BuildingType::MeetingHall,
    }
}

/// Executable form of `building_for_role`.
#[verifier::when_used_as_spec(building_for_role)]
pub fn profession_to_building(profession: Role) -> (b: BuildingType)
    ensures
        b == building_for_role(profession),
{
    match profession {
        Role::Elder => BuildingType::MeetingHall,
        Role::Leader => BuildingType::MeetingHall,
        Role::StrongholdMaster => BuildingType::MeetingHall,
        Role::Warrior => BuildingType::Barracks,
        Role::Farmer => BuildingType::Farm,
        Role::Hunter => BuildingType::HuntingLodge,
        Role::Gatherer => BuildingType::GatheringHut,
        Role::Carpenter => BuildingType::CarpenterWorkshop,
        Role::Stonemason => BuildingType::StonemasonWorkshop,
        Role::Blacksmith => BuildingType::Forge,
        Role::Tailor => BuildingType::TailorShop,
        Role::Cook => BuildingType::Kitchen,
        Role::Healer => BuildingType::Hospital,
        Role::Herbalist => BuildingType::HerbalistHut,
        Role::Alchemist => BuildingType::AlchemistLab,
        Role::Miner => BuildingType::Mine,
        Role::Builder => BuildingType::BuilderHut,
        Role::Scientist => BuildingType::Laboratory,
        Role::Trader => BuildingType::TradingPost,
        Role::Nitwit => BuildingType::MeetingHall,
    }
}

/// Capability tag that works in the given building type. Military structures
/// fall to the warriors; the meeting hall answers to the elders; a building
/// nobody works in maps to the degenerate tag.
pub open spec fn role_for_building(building: BuildingType) -> Role {
    match building {
        BuildingType::MeetingHall => Role::Elder,
        BuildingType::Barracks => Role::Warrior,
        BuildingType::Farm => Role::Farmer,
        BuildingType::HuntingLodge => Role::Hunter,
        BuildingType::GatheringHut => Role::Gatherer,
        BuildingType::CarpenterWorkshop => Role::Carpenter,
        BuildingType::StonemasonWorkshop => Role::Stonemason,
        BuildingType::Forge => Role::Blacksmith,
        BuildingType::TailorShop => Role::Tailor,
        BuildingType::Kitchen => Role::Cook,
        BuildingType::Hospital => Role::Healer,
        BuildingType::HerbalistHut => Role::Herbalist,
        BuildingType::AlchemistLab => Role::Alchemist,
        BuildingType::Mine => Role::Miner,
        BuildingType::BuilderHut => Role::Builder,
        BuildingType::Laboratory => Role::Scientist,
        BuildingType::TradingPost => Role::Trader,
        BuildingType::Tower => Role::Warrior,
        BuildingType::Wall => Role::Warrior,
    }
}

/// Executable form of `role_for_building`.
#[verifier::when_used_as_spec(role_for_building)]
pub fn building_to_profession(building: BuildingType) -> (r: Role)
    ensures
        r == role_for_building(building),
{
    match building {
        BuildingType::MeetingHall => Role::Elder,
        BuildingType::Barracks => Role::Warrior,
        BuildingType::Farm => Role::Farmer,
        BuildingType::HuntingLodge => Role::Hunter,
        BuildingType::GatheringHut => Role::Gatherer,
        BuildingType::CarpenterWorkshop => Role::Carpenter,
        BuildingType::StonemasonWorkshop => Role::Stonemason,
        BuildingType::Forge => Role::Blacksmith,
        BuildingType::TailorShop => Role::Tailor,
        BuildingType::Kitchen => Role::Cook,
        BuildingType::Hospital => Role::Healer,
        BuildingType::HerbalistHut => Role::Herbalist,
        BuildingType::AlchemistLab => Role::Alchemist,
        BuildingType::Mine => Role::Miner,
        BuildingType::BuilderHut => Role::Builder,
        BuildingType::Laboratory => Role::Scientist,
        BuildingType::TradingPost => Role::Trader,
        BuildingType::Tower => Role::Warrior,
        BuildingType::Wall => Role::Warrior,
    }
}

/// The tag and building mappings invert each other, except where buildings
/// are shared: the three leadership tags and the degenerate tag all answer
/// to the meeting hall, whose tag is Elder, and the military structures
/// answer to the warriors, whose own building is the barracks.
pub proof fn lemma_role_building_bijective()
    ensures
        forall|r: Role|
            !(r == Role::Elder || r == Role::Leader || r == Role::StrongholdMaster || r
                == Role::Nitwit) ==> role_for_building(#[trigger] building_for_role(r)) == r,
        forall|b: BuildingType|
            !(b == BuildingType::Tower || b == BuildingType::Wall) ==> building_for_role(
                #[trigger] role_for_building(b),
            ) == b,
{
}

/// Material category consumed to raise a building of the given type.
pub open spec fn material_for_building(building: BuildingType) -> ResourceType {
    match building {
        BuildingType::MeetingHall => ResourceType::Wood,
        BuildingType::Barracks => ResourceType::Iron,
        BuildingType::Farm => ResourceType::Wood,
        BuildingType::HuntingLodge => ResourceType::Wood,
        BuildingType::GatheringHut => ResourceType::Wood,
        BuildingType::CarpenterWorkshop => ResourceType::Wood,
        BuildingType::StonemasonWorkshop => ResourceType::Stone,
        BuildingType::Forge => ResourceType::Iron,
        BuildingType::TailorShop => ResourceType::Cloth,
        BuildingType::Kitchen => ResourceType::Stone,
        BuildingType::Hospital => ResourceType::Cloth,
        BuildingType::HerbalistHut => ResourceType::Glass,
        BuildingType::AlchemistLab => ResourceType::Glass,
        BuildingType::Mine => ResourceType::Stone,
        BuildingType::BuilderHut => ResourceType::Wood,
        BuildingType::Laboratory => ResourceType::Glass,
        BuildingType::Tower => ResourceType::Stone,
        BuildingType::Wall => ResourceType::Stone,
        BuildingType::TradingPost => ResourceType::Gold,
    }
}

/// Executable form of `material_for_building`.
#[verifier::when_used_as_spec(material_for_building)]
pub fn building_to_resource(building: BuildingType) -> (m: ResourceType)
    ensures
        m == material_for_building(building),
{
    match building {
        BuildingType::MeetingHall => ResourceType::Wood,
        BuildingType::Barracks => ResourceType::Iron,
        BuildingType::Farm => ResourceType::Wood,
        BuildingType::HuntingLodge => ResourceType::Wood,
        BuildingType::GatheringHut => ResourceType::Wood,
        BuildingType::CarpenterWorkshop => ResourceType::Wood,
        BuildingType::StonemasonWorkshop => ResourceType::Stone,
        BuildingType::Forge => ResourceType::Iron,
        BuildingType::TailorShop => ResourceType::Cloth,
        BuildingType::Kitchen => ResourceType::Stone,
        BuildingType::Hospital => ResourceType::Cloth,
        BuildingType::HerbalistHut => ResourceType::Glass,
        BuildingType::AlchemistLab => ResourceType::Glass,
        BuildingType::Mine => ResourceType::Stone,
        BuildingType::BuilderHut => ResourceType::Wood,
        BuildingType::Laboratory => ResourceType::Glass,
        BuildingType::Tower => ResourceType::Stone,
        BuildingType::Wall => ResourceType::Stone,
        BuildingType::TradingPost => ResourceType::Gold,
    }
}

/// Material category consumed to train a worker in the given tag: the
/// material of the building the tag trains at.
pub open spec fn material_for_role(profession: Role) -> ResourceType {
    material_for_building(building_for_role(profession))
}

/// Executable form of `material_for_role`.
#[verifier::when_used_as_spec(material_for_role)]
pub fn profession_to_resource(profession: Role) -> (m: ResourceType)
    ensures
        m == material_for_role(profession),
{
    building_to_resource(profession_to_building(profession))
}

/// Whether some entry of `roles` carries the given tag.
pub open spec fn has_role(roles: Seq<RoleAbility>, role: Role) -> bool {
    exists|j: int| 0 <= j < roles.len() && roles[j].role == role
}

/// Index of the first entry of `roles` carrying the given tag, or -1.
pub open spec fn first_role_index(roles: Seq<RoleAbility>, role: Role) -> int
    decreases roles.len(),
{
    if roles.len() == 0 {
        -1
    } else if roles[0].role == role {
        0
    } else {
        let rest = first_role_index(roles.drop_first(), role);
        if rest < 0 {
            -1
        } else {
            rest + 1
        }
    }
}

/// `first_role_index` finds the earliest entry with the tag, and finds one
/// exactly when `has_role` holds.
pub proof fn lemma_first_role_index(roles: Seq<RoleAbility>, role: Role)
    ensures
        has_role(roles, role) <==> first_role_index(roles, role) >= 0,
        first_role_index(roles, role) >= 0 ==> {
            &&& first_role_index(roles, role) < roles.len()
            &&& roles[first_role_index(roles, role)].role == role
            &&& forall|j: int| 0 <= j < first_role_index(roles, role) ==> roles[j].role != role
        },
    decreases roles.len(),
{
    if roles.len() == 0 {
    } else if roles[0].role == role {
    } else {
        let rest = roles.drop_first();
        lemma_first_role_index(rest, role);
        let fr = first_role_index(rest, role);
        if fr >= 0 {
            assert(first_role_index(roles, role) == fr + 1);
            assert(roles[fr + 1] == rest[fr]);
            assert forall|j: int| 0 <= j < fr + 1 implies roles[j].role != role by {
                if j > 0 {
                    assert(rest[j - 1] == roles[j]);
                }
            }
        } else {
            assert forall|j: int| 0 <= j < roles.len() implies roles[j].role != role by {
                if j > 0 {
                    assert(rest[j - 1] == roles[j]);
                }
            }
        }
    }
}

/// When the tag is absent, an entry carrying it appended at the end becomes
/// the first with it.
pub proof fn lemma_first_role_index_push(roles: Seq<RoleAbility>, ra: RoleAbility)
    requires
        !has_role(roles, ra.role),
    ensures
        first_role_index(roles.push(ra), ra.role) == roles.len(),
    decreases roles.len(),
{
    let whole = roles.push(ra);
    if roles.len() == 0 {
        assert(whole[0] == ra);
    } else {
        assert(roles[0].role != ra.role);
        assert(whole[0] == roles[0]);
        assert forall|j: int| 0 <= j < roles.drop_first().len() implies roles.drop_first()[j].role
            != ra.role by {
            assert(roles.drop_first()[j] == roles[j + 1]);
        }
        lemma_first_role_index_push(roles.drop_first(), ra);
        assert(whole.drop_first() =~= roles.drop_first().push(ra));
    }
}

/// Replacing the first entry carrying a tag with another entry carrying the
/// same tag keeps it first.
pub proof fn lemma_first_role_index_update(roles: Seq<RoleAbility>, k: int, ra: RoleAbility)
    requires
        0 <= k < roles.len(),
        roles[k].role == ra.role,
        forall|j: int| 0 <= j < k ==> roles[j].role != ra.role,
    ensures
        first_role_index(roles.update(k, ra), ra.role) == k,
    decreases roles.len(),
{
    let whole = roles.update(k, ra);
    if k == 0 {
        assert(whole[0] == ra);
    } else {
        assert(whole[0] == roles[0]);
        assert(roles[0].role != ra.role);
        assert forall|j: int| 0 <= j < k - 1 implies roles.drop_first()[j].role != ra.role by {
            assert(roles.drop_first()[j] == roles[j + 1]);
        }
        assert(roles.drop_first()[k - 1] == roles[k]);
        lemma_first_role_index_update(roles.drop_first(), k - 1, ra);
        assert(whole.drop_first() =~= roles.drop_first().update(k - 1, ra));
    }
}

/// Proficiency rank the role list grants for the given tag: the rank of the
/// first entry carrying it, or 0 when none does.
pub open spec fn role_rank(roles: Seq<RoleAbility>, role: Role) -> int {
    if first_role_index(roles, role) >= 0 {
        roles[first_role_index(roles, role)].ability.spec_rank()
    } else {
        0
    }
}

/// Sum of the ranks a role list grants for each required tag, in order.
pub open spec fn skill_sum(roles: Seq<RoleAbility>, required: Seq<Role>) -> int
    decreases required.len(),
{
    if required.len() == 0 {
        0
    } else {
        role_rank(roles, required[0]) + skill_sum(roles, required.drop_first())
    }
}

/// The skill sum lies between 0 and five per required tag.
pub proof fn lemma_skill_sum_bounds(roles: Seq<RoleAbility>, required: Seq<Role>)
    ensures
        0 <= skill_sum(roles, required) <= 5 * required.len(),
    decreases required.len(),
{
    if required.len() > 0 {
        lemma_skill_sum_bounds(roles, required.drop_first());
    }
}

/// Whether the role list carries every required tag.
pub open spec fn holds_all(roles: Seq<RoleAbility>, required: Seq<Role>) -> bool {
    forall|i: int| 0 <= i < required.len() ==> #[trigger] has_role(roles, required[i])
}

/// Whether some building in the list has the given type.
pub open spec fn has_building(buildings: Seq<Building>, bt: BuildingType) -> bool {
    exists|i: int| 0 <= i < buildings.len() && buildings[i].building_type == bt
}

/// How many objects in the stockpile are made from the given material.
pub open spec fn count_material(stockpile: Seq<Object>, m: ResourceType) -> int
    decreases stockpile.len(),
{
    if stockpile.len() == 0 {
        0
    } else {
        (if stockpile[0].resource_type == m {
            1int
        } else {
            0int
        }) + count_material(stockpile.drop_first(), m)
    }
}

/// The material count lies between 0 and the stockpile size.
pub proof fn lemma_count_material_bounds(stockpile: Seq<Object>, m: ResourceType)
    ensures
        0 <= count_material(stockpile, m) <= stockpile.len(),
    decreases stockpile.len(),
{
    if stockpile.len() > 0 {
        lemma_count_material_bounds(stockpile.drop_first(), m);
    }
}

/// The stockpile with the first `k` objects of the given material removed;
/// everything else keeps its order.
pub open spec fn remove_matching(stockpile: Seq<Object>, m: ResourceType, k: int) -> Seq<Object>
    decreases stockpile.len(),
{
    if stockpile.len() == 0 || k <= 0 {
        stockpile
    } else if stockpile[0].resource_type == m {
        remove_matching(stockpile.drop_first(), m, k - 1)
    } else {
        seq![stockpile[0]] + remove_matching(stockpile.drop_first(), m, k)
    }
}

/// Removing `k` matching objects lowers the material count by exactly `k`
/// (when that many are present) and keeps every other object.
pub proof fn lemma_remove_matching_count(stockpile: Seq<Object>, m: ResourceType, k: int)
    requires
        0 <= k <= count_material(stockpile, m),
    ensures
        count_material(remove_matching(stockpile, m, k), m) == count_material(stockpile, m) - k,
        forall|other: ResourceType| other != m ==> count_material(
            remove_matching(stockpile, m, k),
            other,
        ) == count_material(stockpile, other),
    decreases stockpile.len(),
{
    if stockpile.len() == 0 || k <= 0 {
    } else if stockpile[0].resource_type == m {
        lemma_remove_matching_count(stockpile.drop_first(), m, k - 1);
        let rest = stockpile.drop_first();
        assert(remove_matching(stockpile, m, k) == remove_matching(rest, m, k - 1));
        assert forall|other: ResourceType| other != m implies count_material(
            remove_matching(stockpile, m, k),
            other,
        ) == count_material(stockpile, other) by {
            assert(count_material(remove_matching(rest, m, k - 1), other)
                == count_material(rest, other));
            assert(count_material(stockpile, other) == (if stockpile[0].resource_type == other {
                1int
            } else {
                0int
            }) + count_material(rest, other));
        }
    } else {
        lemma_remove_matching_count(stockpile.drop_first(), m, k);
        let tail = remove_matching(stockpile.drop_first(), m, k);
        let whole = seq![stockpile[0]] + tail;
        assert(whole.drop_first() =~= tail);
        assert(whole[0] == stockpile[0]);
        assert(remove_matching(stockpile, m, k) == whole);
        assert forall|other: ResourceType| other != m implies count_material(
            remove_matching(stockpile, m, k),
            other,
        ) == count_material(stockpile, other) by {
            assert(count_material(remove_matching(stockpile.drop_first(), m, k), other)
                == count_material(stockpile.drop_first(), other));
            assert(count_material(whole, other) == (if stockpile[0].resource_type == other {
                1int
            } else {
                0int
            }) + count_material(tail, other));
            assert(count_material(stockpile, other) == (if stockpile[0].resource_type == other {
                1int
            } else {
                0int
            }) + count_material(stockpile.drop_first(), other));
        }
    }
}

/// Scan for the first role entry with the given tag.
pub fn find_role_slot(roles: &Vec<RoleAbility>, role: Role) -> (r: Option<usize>)
    ensures
        match r {
            Some(j) => {
                &&& j < roles@.len()
                &&& roles@[j as int].role == role
                &&& forall|k: int| 0 <= k < j ==> roles@[k].role != role
            },
            None => !has_role(roles@, role),
        },
{
    let n: usize = roles.len();
    for i in 0..n
        invariant
            n == roles@.len(),
            forall|k: int| 0 <= k < i ==> roles@[k].role != role,
    {
        if roles[i].role == role {
            return Some(i);
        }
    }
    None
}

/// Whether the role list carries the given tag.
pub fn vec_has_role(roles: &Vec<RoleAbility>, role: Role) -> (r: bool)
    ensures
        r == has_role(roles@, role),
{
    match find_role_slot(roles, role) {
        Some(j) => {
            assert(roles@[j as int].role == role);
            true
        },
        None => false,
    }
}

/// Whether the role list carries every required tag.
pub fn vec_holds_all(roles: &Vec<RoleAbility>, required: &Vec<Role>) -> (r: bool)
    ensures
        r == holds_all(roles@, required@),
{
    let n: usize = required.len();
    for i in 0..n
        invariant
            n == required@.len(),
            forall|k: int| 0 <= k < i ==> #[trigger] has_role(roles@, required@[k]),
    {
        if !vec_has_role(roles, required[i]) {
            return false;
        }
    }
    true
}

/// Whether the settlement owns a building of the given type.
pub fn vec_has_building(buildings: &Vec<Building>, bt: BuildingType) -> (r: bool)
    ensures
        r == has_building(buildings@, bt),
{
    let n: usize = buildings.len();
    for i in 0..n
        invariant
            n == buildings@.len(),
            forall|k: int| 0 <= k < i ==> buildings@[k].building_type != bt,
    {
        if buildings[i].building_type == bt {
            return true;
        }
    }
    false
}

/// Executable sum of the ranks granted for the required tags.
pub fn compute_skill_sum(roles: &Vec<RoleAbility>, required: &Vec<Role>) -> (s: u128)
    ensures
        s == skill_sum(roles@, required@),
{
    let n: usize = required.len();
    let mut s: u128 = 0;
    proof {
        assert(required@.skip(0) =~= required@);
    }
    for i in 0..n
        invariant
            n == required@.len(),
            s + skill_sum(roles@, required@.skip(i as int)) == skill_sum(roles@, required@),
            s <= 5 * i,
    {
        proof {
            lemma_skill_sum_bounds(roles@, required@.skip(i as int));
            assert(required@.skip(i as int).drop_first() =~= required@.skip(i + 1));
            assert(required@.skip(i as int)[0] == required@[i as int]);
        }
        let rank_add: u32 = match find_role_slot(roles, required[i]) {
            Some(j) => {
                proof {
                    lemma_first_role_index(roles@, required@[i as int]);
                    assert(first_role_index(roles@, required@[i as int]) == j as int);
                }
                roles[j].ability.rank()
            },
            None => {
                proof {
                    lemma_first_role_index(roles@, required@[i as int]);
                }
                0
            },
        };
        assert(rank_add == role_rank(roles@, required@[i as int]));
        s = s + rank_add as u128;
    }
    proof {
        assert(required@.skip(n as int) =~= Seq::<Role>::empty());
    }
    s
}

/// Count the stockpile objects made from the given material.
pub fn count_resources(stockpile: &Vec<Object>, m: ResourceType) -> (n: usize)
    ensures
        n == count_material(stockpile@, m),
{
    let len: usize = stockpile.len();
    let mut n: usize = 0;
    proof {
        assert(stockpile@.skip(0) =~= stockpile@);
    }
    for i in 0..len
        invariant
            len == stockpile@.len(),
            n <= i,
            n + count_material(stockpile@.skip(i as int), m) == count_material(stockpile@, m),
    {
        proof {
            assert(stockpile@.skip(i as int).drop_first() =~= stockpile@.skip(i + 1));
            assert(stockpile@.skip(i as int)[0] == stockpile@[i as int]);
        }
        if stockpile[i].resource_type == m {
            n = n + 1;
        }
    }
    proof {
        assert(stockpile@.skip(len as int) =~= Seq::<Object>::empty());
    }
    n
}

/// Copy the stockpile, leaving out the first `k` objects of the given
/// material.
pub fn remove_resources(stockpile: &Vec<Object>, m: ResourceType, k: usize) -> (r: Vec<Object>)
    ensures
        r@ == remove_matching(stockpile@, m, k as int),
{
    let len: usize = stockpile.len();
    let mut kept: Vec<Object> = Vec::new();
    let mut remaining: usize = k;
    proof {
        assert(stockpile@.skip(0) =~= stockpile@);
    }
    for i in 0..len
        invariant
            len == stockpile@.len(),
            remaining <= k,
            kept@ + remove_matching(stockpile@.skip(i as int), m, remaining as int)
                == remove_matching(stockpile@, m, k as int),
    {
        proof {
            assert(stockpile@.skip(i as int).drop_first() =~= stockpile@.skip(i + 1));
            assert(stockpile@.skip(i as int)[0] == stockpile@[i as int]);
        }
        let ghost pre_kept = kept@;
        let ghost rest = stockpile@.skip(i as int);
        if stockpile[i].resource_type == m && remaining > 0 {
            remaining = remaining - 1;
        } else {
            kept.push(stockpile[i].clone());
            proof {
                if remaining == 0 && stockpile@[i as int].resource_type == m {
                    assert(remove_matching(rest, m, 0) =~= rest);
                    assert(remove_matching(stockpile@.skip(i + 1), m, 0)
                        =~= stockpile@.skip(i + 1));
                    assert(rest =~= seq![stockpile@[i as int]] + stockpile@.skip(i + 1));
                    assert(kept@ + remove_matching(stockpile@.skip(i + 1), m, remaining as int)
                        =~= pre_kept + remove_matching(rest, m, remaining as int));
                } else {
                    assert(remove_matching(rest, m, remaining as int) =~= seq![
                        stockpile@[i as int],
                    ] + remove_matching(stockpile@.skip(i + 1), m, remaining as int));
                    assert(kept@ + remove_matching(stockpile@.skip(i + 1), m, remaining as int)
                        =~= pre_kept + remove_matching(rest, m, remaining as int));
                }
            }
        }
    }
    proof {
        assert(stockpile@.skip(len as int) =~= Seq::<Object>::empty());
        assert(remove_matching(Seq::<Object>::empty(), m, remaining as int)
            =~= Seq::<Object>::empty());
        assert(kept@ =~= kept@ + Seq::<Object>::empty());
    }
    kept
}

} // verus!
