//! Construction of workers and hostile creatures: random names, random
//! attributes, and role sets that keep tags unique and the degenerate tag
//! exclusive.

use vstd::prelude::*;
use vstd::assert_by_contradiction;
use crate::defs::{AttributeLevel, Elf, Goblin, HappinessLevel, Random, Role, RoleAbility};
use crate::rng::{random_below, role_from_index, role_of_index};

verus! {

/// Position of each tag in the fixed draw order; the degenerate tag sits
/// just past it and is never drawn.
pub open spec fn index_of_role(r: Role) -> int {
    match r {
        Role::Elder => 0,
        Role::Leader => 1,
        Role::StrongholdMaster => 2,
        Role::Warrior => 3,
        Role::Farmer => 4,
        Role::Hunter => 5,
        Role::Gatherer => 6,
        Role::Carpenter => 7,
        Role::Stonemason => 8,
        Role::Blacksmith => 9,
        Role::Tailor => 10,
        Role::Cook => 11,
        Role::Healer => 12,
        Role::Herbalist => 13,
        Role::Alchemist => 14,
        Role::Miner => 15,
        Role::Builder => 16,
        Role::Scientist => 17,
        Role::Trader => 18,
        Role::Nitwit => 19,
    }
}

/// The draw order and the tag positions invert each other.
pub proof fn lemma_role_index_inverse()
    ensures
        forall|i: int| 0 <= i < 19 ==> index_of_role(#[trigger] role_of_index(i)) == i,
        forall|r: Role| r != Role::Nitwit ==> role_of_index(#[trigger] index_of_role(r)) == r,
        forall|r: Role| r != Role::Nitwit ==> 0 <= #[trigger] index_of_role(r) < 19,
{
}

/// A duplicate-free, Nitwit-free tag list shorter than the full draw order
/// leaves some drawable tag unused.
pub proof fn lemma_free_role_exists(tags: Seq<Role>)
    requires
        tags.no_duplicates(),
        !tags.contains(Role::Nitwit),
        tags.len() < 19,
    ensures
        exists|i: int| 0 <= i < 19 && !tags.contains(#[trigger] role_of_index(i)),
{
    broadcast use vstd::seq_lib::seq_to_set_is_finite;

    lemma_role_index_inverse();
    assert_by_contradiction!(exists|i: int|
        0 <= i < 19 && !tags.contains(#[trigger] role_of_index(i)), {
        let idxs = tags.map_values(|r: Role| index_of_role(r));
        assert forall|p: int, q: int| 0 <= p < q < idxs.len() implies idxs[p] != idxs[q] by {
            assert(tags[p] != tags[q]);
            assert(tags[p] != Role::Nitwit) by {
                if tags[p] == Role::Nitwit {
                    assert(tags.contains(Role::Nitwit));
                }
            }
            assert(tags[q] != Role::Nitwit) by {
                if tags[q] == Role::Nitwit {
                    assert(tags.contains(Role::Nitwit));
                }
            }
            assert(role_of_index(index_of_role(tags[p])) == tags[p]);
            assert(role_of_index(index_of_role(tags[q])) == tags[q]);
        }
        assert(idxs.no_duplicates());
        idxs.unique_seq_to_set();
        assert forall|i: int| vstd::set_lib::set_int_range(0, 19).contains(i) implies idxs
            .to_set()
            .contains(i) by {
            assert(0 <= i < 19);
            assert(tags.contains(role_of_index(i)));
            let p = choose|p: int| 0 <= p < tags.len() && tags[p] == role_of_index(i);
            assert(idxs[p] == index_of_role(tags[p]));
            assert(idxs[p] == i);
            assert(idxs.contains(i));
        }
        vstd::set_lib::lemma_int_range(0, 19);
        vstd::set_lib::lemma_len_subset(vstd::set_lib::set_int_range(0, 19), idxs.to_set());
        assert(idxs.to_set().len() == tags.len());
        assert(false);
    });
}

/// Whether a string is one of the stock first names.
pub open spec fn is_forename(s: Seq<char>) -> bool {
    ||| s == "vfaanraazr"@
    ||| s == "raazr"@
    ||| s == "moetraazr"@
    ||| s == "apeth"@
}

/// Whether a string is one of the stock family names.
pub open spec fn is_surname(s: Seq<char>) -> bool {
    ||| s == "zroahhaa"@
    ||| s == "zruamoet"@
    ||| s == "hhaavfoetsraazr"@
    ||| s == "zroahhaavfoetsraazr"@
}

/// Draw one of the stock first names.
fn pick_forename() -> (s: String)
    ensures
        is_forename(s@),
{
    let i = random_below(4);
    match i {
        0 => "vfaanraazr".to_owned(),
        1 => "raazr".to_owned(),
        2 => "moetraazr".to_owned(),
        _ => "apeth".to_owned(),
    }
}

/// Draw one of the stock family names.
fn pick_surname() -> (s: String)
    ensures
        is_surname(s@),
{
    let i = random_below(4);
    match i {
        0 => "zroahhaa".to_owned(),
        1 => "zruamoet".to_owned(),
        2 => "hhaavfoetsraazr".to_owned(),
        _ => "zroahhaavfoetsraazr".to_owned(),
    }
}

/// The tag list with later repetitions of a tag dropped; first occurrences
/// keep their order.
pub open spec fn dedup_roles(rs: Seq<Role>) -> Seq<Role>
    decreases rs.len(),
{
    if rs.len() == 0 {
        Seq::empty()
    } else {
        let prev = dedup_roles(rs.drop_last());
        if rs.drop_last().contains(rs.last()) {
            prev
        } else {
            prev.push(rs.last())
        }
    }
}

/// Deduplication keeps exactly the tags of the input, without duplicates.
pub proof fn lemma_dedup_roles(rs: Seq<Role>)
    ensures
        dedup_roles(rs).no_duplicates(),
        dedup_roles(rs).len() <= rs.len(),
        forall|r: Role| dedup_roles(rs).contains(r) <==> rs.contains(r),
    decreases rs.len(),
{
    if rs.len() > 0 {
        let prefix = rs.drop_last();
        lemma_dedup_roles(prefix);
        assert forall|r: Role| dedup_roles(rs).contains(r) <==> rs.contains(r) by {
            if rs.contains(r) {
                let p = choose|p: int| 0 <= p < rs.len() && rs[p] == r;
                if p < rs.len() - 1 {
                    assert(prefix[p] == r);
                    assert(prefix.contains(r));
                } else {
                    assert(rs.last() == r);
                }
                if prefix.contains(r) {
                    assert(dedup_roles(prefix).contains(r));
                    if !prefix.contains(rs.last()) {
                        let q = choose|q: int|
                            0 <= q < dedup_roles(prefix).len() && dedup_roles(prefix)[q] == r;
                        assert(dedup_roles(rs)[q] == r);
                    }
                } else {
                    assert(r == rs.last());
                    assert(dedup_roles(rs).last() == r);
                }
            }
            if dedup_roles(rs).contains(r) {
                let p = choose|p: int|
                    0 <= p < dedup_roles(rs).len() && dedup_roles(rs)[p] == r;
                if prefix.contains(rs.last()) {
                    assert(dedup_roles(prefix)[p] == r);
                    assert(prefix.contains(r));
                    let q = choose|q: int| 0 <= q < prefix.len() && prefix[q] == r;
                    assert(rs[q] == r);
                } else {
                    if p < dedup_roles(rs).len() - 1 {
                        assert(dedup_roles(prefix)[p] == r);
                        assert(prefix.contains(r));
                        let q = choose|q: int| 0 <= q < prefix.len() && prefix[q] == r;
                        assert(rs[q] == r);
                    } else {
                        assert(r == rs.last());
                        assert(rs[rs.len() - 1] == r);
                    }
                }
            }
        }
        if !prefix.contains(rs.last()) {
            assert forall|p: int, q: int|
                0 <= p < q < dedup_roles(rs).len() implies dedup_roles(rs)[p] != dedup_roles(
                rs,
            )[q] by {
                if q < dedup_roles(rs).len() - 1 {
                } else {
                    assert(dedup_roles(rs)[p] == dedup_roles(prefix)[p]);
                    assert(dedup_roles(prefix).contains(dedup_roles(prefix)[p]));
                    assert(prefix.contains(dedup_roles(prefix)[p]));
                }
            }
        }
    }
}

/// A list without duplicates is its own deduplication.
pub proof fn lemma_dedup_unique(rs: Seq<Role>)
    requires
        rs.no_duplicates(),
    ensures
        dedup_roles(rs) == rs,
    decreases rs.len(),
{
    if rs.len() > 0 {
        let prefix = rs.drop_last();
        assert forall|p: int, q: int| 0 <= p < q < prefix.len() implies prefix[p] != prefix[q] by {
            assert(prefix[p] == rs[p] && prefix[q] == rs[q]);
        }
        lemma_dedup_unique(prefix);
        assert(!prefix.contains(rs.last())) by {
            if prefix.contains(rs.last()) {
                let p = choose|p: int| 0 <= p < prefix.len() && prefix[p] == rs.last();
                assert(rs[p] == rs[rs.len() - 1]);
            }
        }
        assert(dedup_roles(rs) =~= rs);
    } else {
        assert(dedup_roles(rs) =~= rs);
    }
}

/// Drop later repetitions of each tag, keeping first occurrences in order.
fn dedup_roles_exec(rs: &Vec<Role>) -> (out: Vec<Role>)
    ensures
        out@ == dedup_roles(rs@),
{
    let mut out: Vec<Role> = Vec::new();
    let n: usize = rs.len();
    proof {
        assert(rs@.subrange(0, 0) =~= Seq::<Role>::empty());
    }
    for i in 0..n
        invariant
            n == rs@.len(),
            out@ == dedup_roles(rs@.subrange(0, i as int)),
    {
        let ghost prefix = rs@.subrange(0, i as int);
        proof {
            lemma_dedup_roles(prefix);
            assert(rs@.subrange(0, i + 1).drop_last() =~= prefix);
            assert(rs@.subrange(0, i + 1).last() == rs@[i as int]);
        }
        if !vec_contains_role(&out, rs[i]) {
            out.push(rs[i]);
        }
    }
    proof {
        assert(rs@.subrange(0, n as int) =~= rs@);
    }
    out
}

/// Whether the tag list holds the given tag.
fn vec_contains_role(rs: &Vec<Role>, role: Role) -> (r: bool)
    ensures
        r == rs@.contains(role),
{
    let n: usize = rs.len();
    for i in 0..n
        invariant
            n == rs@.len(),
            forall|k: int| 0 <= k < i ==> rs@[k] != role,
    {
        if rs[i] == role {
            assert(rs@[i as int] == role);
            return true;
        }
    }
    false
}

/// Draw a tag that is neither the degenerate one nor already in the list,
/// uniformly among those left.
fn draw_distinct_role(tags: &Vec<Role>) -> (r: Role)
    requires
        tags@.no_duplicates(),
        !tags@.contains(Role::Nitwit),
        tags@.len() < 19,
    ensures
        r != Role::Nitwit,
        !tags@.contains(r),
{
    let mut pool: Vec<Role> = Vec::new();
    let mut i: u32 = 0;
    while i < 19
        invariant
            i <= 19,
            pool@.len() <= i,
            tags@.no_duplicates(),
            !tags@.contains(Role::Nitwit),
            tags@.len() < 19,
            forall|k: int|
                0 <= k < pool@.len() ==> !tags@.contains(#[trigger] pool@[k]) && pool@[k]
                    != Role::Nitwit,
            forall|j: int|
                0 <= j < i ==> tags@.contains(#[trigger] role_of_index(j)) || pool@.contains(
                    role_of_index(j),
                ),
        decreases 19 - i,
    {
        let candidate = role_from_index(i);
        if !vec_contains_role(tags, candidate) {
            let ghost pre_pool = pool@;
            pool.push(candidate);
            proof {
                assert(pool@.last() == candidate);
                assert forall|j: int|
                    0 <= j < i + 1 implies tags@.contains(#[trigger] role_of_index(j))
                    || pool@.contains(role_of_index(j)) by {
                    if j < i {
                        if pre_pool.contains(role_of_index(j)) {
                            let k = choose|k: int|
                                0 <= k < pre_pool.len() && pre_pool[k] == role_of_index(j);
                            assert(pool@[k] == role_of_index(j));
                        }
                    } else {
                        assert(pool@[pool@.len() - 1] == role_of_index(j));
                    }
                }
            }
        }
        i = i + 1;
    }
    proof {
        lemma_free_role_exists(tags@);
        let w = choose|w: int| 0 <= w < 19 && !tags@.contains(#[trigger] role_of_index(w));
        assert(pool@.contains(role_of_index(w)));
        assert(pool@.len() > 0);
    }
    let k = random_below(pool.len() as u32);
    let out = pool[k as usize];
    assert(pool@[k as int] == out);
    out
}

/// Pad the tag list with fresh random tags until it holds three, keeping
/// what is already there in front.
fn pad_roles(tags: &mut Vec<Role>)
    requires
        old(tags)@.no_duplicates(),
        !old(tags)@.contains(Role::Nitwit),
    ensures
        final(tags)@.len() == if old(tags)@.len() >= 3 {
            old(tags)@.len() as int
        } else {
            3
        },
        final(tags)@.subrange(0, old(tags)@.len() as int) == old(tags)@,
        final(tags)@.no_duplicates(),
        !final(tags)@.contains(Role::Nitwit),
{
    proof {
        assert(old(tags)@.subrange(0, old(tags)@.len() as int) =~= old(tags)@);
    }
    while tags.len() < 3
        invariant
            tags@.len() >= old(tags)@.len() || tags@.len() <= 3,
            tags@.len() <= 3 || tags@ == old(tags)@,
            old(tags)@.len() >= 3 ==> tags@ == old(tags)@,
            old(tags)@.len() < 3 ==> old(tags)@.len() <= tags@.len() <= 3,
            tags@.subrange(0, old(tags)@.len() as int) == old(tags)@,
            tags@.no_duplicates(),
            !tags@.contains(Role::Nitwit),
        decreases 3 - tags@.len(),
    {
        let fresh = draw_distinct_role(tags);
        let ghost pre = tags@;
        tags.push(fresh);
        proof {
            assert(tags@.drop_last() =~= pre);
            assert(tags@.subrange(0, old(tags)@.len() as int) =~= pre.subrange(
                0,
                old(tags)@.len() as int,
            ));
            assert forall|p: int, q: int| 0 <= p < q < tags@.len() implies tags@[p] != tags@[q] by {
                if q == tags@.len() - 1 {
                    assert(!pre.contains(fresh));
                    assert(pre[p] == tags@[p]);
                    if tags@[p] == fresh {
                        assert(pre.contains(fresh));
                    }
                }
            }
            assert(!tags@.contains(Role::Nitwit)) by {
                if tags@.contains(Role::Nitwit) {
                    let w = choose|w: int| 0 <= w < tags@.len() && tags@[w] == Role::Nitwit;
                    if w < tags@.len() - 1 {
                        assert(pre[w] == Role::Nitwit);
                        assert(pre.contains(Role::Nitwit));
                    }
                }
            }
        }
    }
}

/// Give each tag a randomly drawn proficiency, in order.
fn assign_abilities(tags: &Vec<Role>) -> (out: Vec<RoleAbility>)
    ensures
        out@.len() == tags@.len(),
        forall|j: int| 0 <= j < tags@.len() ==> #[trigger] out@[j].role == tags@[j],
{
    let mut out: Vec<RoleAbility> = Vec::new();
    let n: usize = tags.len();
    for i in 0..n
        invariant
            n == tags@.len(),
            out@.len() == i,
            forall|j: int| 0 <= j < i ==> #[trigger] out@[j].role == tags@[j],
    {
        out.push(RoleAbility { role: tags[i], ability: AttributeLevel::random() });
    }
    out
}

/// Tags of a role list, in order.
pub open spec fn role_tags(roles: Seq<RoleAbility>) -> Seq<Role> {
    roles.map_values(|ra: RoleAbility| ra.role)
}

/// Construction of a new entity from optional age, family name and tag set.
pub trait NewEntity: Sized {
    fn new(age: Option<u32>, surname: Option<String>, roles: Option<Vec<Role>>) -> Self;
}

impl NewEntity for Elf {
    /// A fresh worker: stock or given name parts, given or random age in
    /// [18, 100), full health, no assignment, and a tag set built from the
    /// given tags (deduplicated, first occurrences first) padded with
    /// fresh random tags to at least three — unless the degenerate tag is
    /// among them, which excludes all others.
    fn new(age: Option<u32>, surname: Option<String>, roles: Option<Vec<Role>>) -> (r: Elf)
        ensures
            r.health == 100,
            r.task is None,
            r.task_start is None,
            r.building is None,
            r.happiness == HappinessLevel::Content,
            r.name@.len() == 2,
            is_forename(r.name@[0]@),
            match surname {
                Some(s) => r.name@[1] == s,
                None => is_surname(r.name@[1]@),
            },
            match age {
                Some(a) => r.age == a,
                None => 18 <= r.age < 100,
            },
            ({
                let base = match roles {
                    Some(rs) => dedup_roles(rs@),
                    None => Seq::<Role>::empty(),
                };
                if base.contains(Role::Nitwit) {
                    r.roles@.len() == 1 && r.roles@[0].role == Role::Nitwit
                } else {
                    &&& r.roles@.len() == if base.len() >= 3 {
                        base.len() as int
                    } else {
                        3
                    }
                    &&& forall|j: int|
                        0 <= j < base.len() ==> #[trigger] r.roles@[j].role == base[j]
                    &&& role_tags(r.roles@).no_duplicates()
                    &&& !role_tags(r.roles@).contains(Role::Nitwit)
                }
            }),
    {
        let forename = pick_forename();
        let family = match surname {
            Some(s) => s,
            None => pick_surname(),
        };
        let mut name: Vec<String> = Vec::new();
        name.push(forename);
        name.push(family);
        let given: Vec<Role> = match roles {
            Some(rs) => {
                proof {
                    lemma_dedup_roles(rs@);
                }
                dedup_roles_exec(&rs)
            },
            None => Vec::new(),
        };
        let mut tags: Vec<Role>;
        if vec_contains_role(&given, Role::Nitwit) {
            tags = Vec::new();
            tags.push(Role::Nitwit);
        } else {
            tags = given;
            pad_roles(&mut tags);
        }
        let abilities = assign_abilities(&tags);
        proof {
            if !tags@.contains(Role::Nitwit) {
                assert(role_tags(abilities@) =~= tags@);
            }
        }
        let years: u32 = match age {
            Some(a) => a,
            None => 18 + random_below(82),
        };
        Elf {
            name,
            age: years,
            patience: AttributeLevel::random(),
            intelligence: AttributeLevel::random(),
            strength: AttributeLevel::random(),
            agility: AttributeLevel::random(),
            obedience: AttributeLevel::random(),
            loyalty: AttributeLevel::random(),
            happiness: HappinessLevel::Content,
            hunger: AttributeLevel::random(),
            thirst: AttributeLevel::random(),
            sleep: AttributeLevel::random(),
            roles: abilities,
            task: None,
            task_start: None,
            building: None,
            health: 100,
        }
    }
}

impl NewEntity for Goblin {
    /// A fresh hostile creature: stock or given name parts, given or
    /// random age in [18, 100), random stats and full health. The tag set
    /// argument plays no part: creatures hold no capabilities.
    fn new(age: Option<u32>, surname: Option<String>, roles: Option<Vec<Role>>) -> (r: Goblin)
        ensures
            r.health == 100,
            r.name@.len() == 2,
            is_forename(r.name@[0]@),
            match surname {
                Some(s) => r.name@[1] == s,
                None => is_surname(r.name@[1]@),
            },
            match age {
                Some(a) => r.age == a,
                None => 18 <= r.age < 100,
            },
    {
        let forename = pick_forename();
        let family = match surname {
            Some(s) => s,
            None => pick_surname(),
        };
        let mut name: Vec<String> = Vec::new();
        name.push(forename);
        name.push(family);
        let years: u32 = match age {
            Some(a) => a,
            None => 18 + random_below(82),
        };
        Goblin {
            name,
            age: years,
            strength: AttributeLevel::random(),
            agility: AttributeLevel::random(),
            loyalty: AttributeLevel::random(),
            charisma: AttributeLevel::random(),
            health: 100,
        }
    }
}

} // verus!
