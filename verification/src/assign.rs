//! The assignment engine: matching idle, qualified workers to work orders,
//! deferring orders that only busy workers could take, and the completion
//! sweep that retires finished work.

use vstd::prelude::*;
use crate::defs::{
    clone_objects, has_building, holds_all, skill_sum, vec_has_building, vec_holds_all, Elf,
    Object, Stronghold, Task,
};
use crate::game::GameError;

verus! {

/// A worker with no active assignment.
pub open spec fn idle(e: Elf) -> bool {
    e.task is None
}

/// A worker that could take the order right now: idle and holding every
/// required tag.
pub open spec fn eligible(e: Elf, required: Seq<crate::defs::Role>) -> bool {
    idle(e) && holds_all(e.roles@, required)
}

/// Summed proficiency rank of a worker over the required tags.
pub open spec fn elf_skill(e: Elf, required: Seq<crate::defs::Role>) -> int {
    skill_sum(e.roles@, required)
}

/// The worker after an order is handed to it at the given tick.
pub open spec fn with_assignment(e: Elf, task: Task, tick: u64) -> Elf {
    Elf { task: Some(task), task_start: Some(tick), ..e }
}

/// Index of the worker the engine picks among the first `n`: the earliest
/// eligible worker with the strictly greatest skill sum, or -1 when none of
/// the first `n` is eligible.
pub open spec fn best_index(elves: Seq<Elf>, required: Seq<crate::defs::Role>, n: int) -> int
    decreases n,
{
    if n <= 0 {
        -1
    } else {
        let prev = best_index(elves, required, n - 1);
        if !eligible(elves[n - 1], required) {
            prev
        } else if prev < 0 {
            n - 1
        } else if elf_skill(elves[n - 1], required) > elf_skill(elves[prev], required) {
            n - 1
        } else {
            prev
        }
    }
}

/// `best_index` picks an eligible worker exactly when one exists, with the
/// greatest skill sum, and earlier than any other worker of that sum.
pub proof fn lemma_best_index(elves: Seq<Elf>, required: Seq<crate::defs::Role>, n: int)
    requires
        0 <= n <= elves.len(),
    ensures
        best_index(elves, required, n) >= -1,
        best_index(elves, required, n) == -1 <==> (forall|i: int|
            0 <= i < n ==> !eligible(elves[i], required)),
        best_index(elves, required, n) >= 0 ==> {
            let b = best_index(elves, required, n);
            &&& b < n
            &&& eligible(elves[b], required)
            &&& forall|i: int|
                0 <= i < n && eligible(elves[i], required) ==> elf_skill(elves[i], required)
                    <= elf_skill(elves[b], required)
            &&& forall|i: int|
                0 <= i < b && eligible(elves[i], required) ==> elf_skill(elves[i], required)
                    < elf_skill(elves[b], required)
        },
    decreases n,
{
    if n > 0 {
        lemma_best_index(elves, required, n - 1);
        let prev = best_index(elves, required, n - 1);
        let b = best_index(elves, required, n);
        if !eligible(elves[n - 1], required) {
            assert(b == prev);
        } else if prev < 0 {
            assert(b == n - 1);
            assert forall|i: int| 0 <= i < n && eligible(elves[i], required) implies elf_skill(
                elves[i],
                required,
            ) <= elf_skill(elves[b], required) by {
                if i < n - 1 {
                    assert(!eligible(elves[i], required));
                }
            }
        } else if elf_skill(elves[n - 1], required) > elf_skill(elves[prev], required) {
            assert(b == n - 1);
            assert forall|i: int| 0 <= i < n && eligible(elves[i], required) implies elf_skill(
                elves[i],
                required,
            ) <= elf_skill(elves[b], required) by {
                if i < n - 1 {
                    assert(elf_skill(elves[i], required) <= elf_skill(elves[prev], required));
                }
            }
            assert forall|i: int| 0 <= i < b && eligible(elves[i], required) implies elf_skill(
                elves[i],
                required,
            ) < elf_skill(elves[b], required) by {
                assert(elf_skill(elves[i], required) <= elf_skill(elves[prev], required));
            }
        } else {
            assert(b == prev);
        }
    }
}

/// Scan for the worker the engine assigns to: the earliest idle worker
/// holding every required tag whose skill sum no other such worker beats.
pub fn pick_best(elves: &Vec<Elf>, required: &Vec<crate::defs::Role>) -> (r: Option<usize>)
    ensures
        ({
            let b = best_index(elves@, required@, elves@.len() as int);
            match r {
                Some(idx) => {
                    &&& idx as int == b
                    &&& idx < elves@.len()
                    &&& eligible(elves@[idx as int], required@)
                    &&& forall|i: int|
                        0 <= i < elves@.len() && eligible(elves@[i], required@) ==> elf_skill(
                            elves@[i],
                            required@,
                        ) <= elf_skill(elves@[idx as int], required@)
                    &&& forall|i: int|
                        0 <= i < idx && eligible(elves@[i], required@) ==> elf_skill(
                            elves@[i],
                            required@,
                        ) < elf_skill(elves@[idx as int], required@)
                },
                None => {
                    &&& b == -1
                    &&& forall|i: int| 0 <= i < elves@.len() ==> !eligible(elves@[i], required@)
                },
            }
        }),
{
    let n: usize = elves.len();
    let mut found: bool = false;
    let mut best: usize = 0;
    let mut best_sum: u128 = 0;
    for i in 0..n
        invariant
            n == elves@.len(),
            !found ==> best_index(elves@, required@, i as int) == -1,
            found ==> {
                &&& best < i
                &&& best as int == best_index(elves@, required@, i as int)
                &&& best_sum == elf_skill(elves@[best as int], required@)
            },
    {
        let e = &elves[i];
        if e.task.is_none() && vec_holds_all(&e.roles, required) {
            assert(eligible(elves@[i as int], required@));
            let s = compute_skill(e, required);
            if !found || s > best_sum {
                found = true;
                best = i;
                best_sum = s;
            }
        } else {
            assert(!eligible(elves@[i as int], required@));
        }
    }
    proof {
        lemma_best_index(elves@, required@, n as int);
    }
    if found {
        Some(best)
    } else {
        None
    }
}

/// Executable skill sum of one worker over the required tags.
fn compute_skill(e: &Elf, required: &Vec<crate::defs::Role>) -> (s: u128)
    ensures
        s == elf_skill(*e, required@),
{
    crate::defs::compute_skill_sum(&e.roles, required)
}

/// Whether anyone in the roster, idle or busy, holds every required tag.
pub fn any_qualified(elves: &Vec<Elf>, required: &Vec<crate::defs::Role>) -> (r: bool)
    ensures
        r == exists|i: int|
            0 <= i < elves@.len() && #[trigger] holds_all(elves@[i].roles@, required@),
{
    let n: usize = elves.len();
    for i in 0..n
        invariant
            n == elves@.len(),
            forall|k: int| 0 <= k < i ==> !(#[trigger] holds_all(elves@[k].roles@, required@)),
    {
        if vec_holds_all(&elves[i].roles, required) {
            assert(holds_all(elves@[i as int].roles@, required@));
            return true;
        }
    }
    false
}

/// Hand the order to the worker at the given index, recording the tick.
pub(crate) fn set_assignment(elves: &mut Vec<Elf>, i: usize, task: Task, tick: u64)
    requires
        i < old(elves)@.len(),
    ensures
        final(elves)@ == old(elves)@.update(
            i as int,
            with_assignment(old(elves)@[i as int], task, tick),
        ),
{
    let mut e = elves.remove(i);
    e.task = Some(task);
    e.task_start = Some(tick);
    elves.insert(i, e);
    proof {
        assert(final(elves)@ =~= old(elves)@.update(
            i as int,
            with_assignment(old(elves)@[i as int], task, tick),
        ));
    }
}

/// Tick at which the worker's current assignment was started; a missing
/// record counts as tick 0.
pub open spec fn assignment_start(e: Elf) -> int {
    match e.task_start {
        Some(t) => t as int,
        None => 0,
    }
}

/// Whether the worker's assignment has run its full duration by the given
/// tick.
pub open spec fn task_complete(e: Elf, tick: u64) -> bool {
    match e.task {
        Some(t) => assignment_start(e) + t.duration <= tick,
        None => false,
    }
}

/// The worker after the completion sweep at the given tick: a finished
/// assignment is cleared, anything else is left alone.
pub open spec fn after_sweep_elf(e: Elf, tick: u64) -> Elf {
    if task_complete(e, tick) {
        Elf { task: None, task_start: None, ..e }
    } else {
        e
    }
}

/// The roster after the completion sweep at the given tick.
pub open spec fn swept_elves(elves: Seq<Elf>, tick: u64) -> Seq<Elf> {
    elves.map_values(|e: Elf| after_sweep_elf(e, tick))
}

/// What the worker's assignment emits at the given tick: its produced
/// objects when it completes, nothing otherwise.
pub open spec fn produced_of(e: Elf, tick: u64) -> Seq<Object> {
    match e.task {
        Some(t) => if task_complete(e, tick) {
            t.produced_objects@
        } else {
            Seq::empty()
        },
        None => Seq::empty(),
    }
}

/// Everything the completion sweep at the given tick emits, in roster
/// order.
pub open spec fn swept_produced(elves: Seq<Elf>, tick: u64) -> Seq<Object>
    decreases elves.len(),
{
    if elves.len() == 0 {
        Seq::empty()
    } else {
        produced_of(elves[0], tick) + swept_produced(elves.drop_first(), tick)
    }
}

/// Work-order operations of a settlement: submitting, listing and the
/// completion sweep.
pub trait TaskOperations {
    fn new_task(&mut self, task: Task, tick: u64) -> Result<bool, GameError>;

    fn list_tasks(&self, elf: Option<&Elf>) -> Result<Vec<Task>, GameError>;

    fn check_tasks_complete(&mut self, tick: u64) -> Result<Vec<Object>, GameError>;
}

impl TaskOperations for Stronghold {
    /// Submit a work order at the given tick.
    ///
    /// `Ok(true)`: an idle worker held every required tag; the earliest one
    /// with the strictly greatest summed proficiency got the order. `Ok(false)`:
    /// only busy workers qualify, so the order went to the back of the
    /// deferred queue. `Err(MissingBuilding)`: the settlement owns no
    /// building of the required type. `Err(NoSuitableWorker)`: nobody in the
    /// roster, idle or busy, holds every required tag.
    fn new_task(&mut self, task: Task, tick: u64) -> (r: Result<bool, GameError>)
        ensures
            r is Ok <==> (has_building(old(self).buildings@, task.required_building) && exists|
                i: int,
            |
                0 <= i < old(self).elves@.len() && #[trigger] holds_all(
                    old(self).elves@[i].roles@,
                    task.required_roles@,
                )),
            r == Result::<bool, GameError>::Ok(true) <==> (has_building(
                old(self).buildings@,
                task.required_building,
            ) && exists|i: int|
                0 <= i < old(self).elves@.len() && #[trigger] eligible(
                    old(self).elves@[i],
                    task.required_roles@,
                )),
            ({
                let s = *old(self);
                let required = task.required_roles@;
                let b = best_index(s.elves@, required, s.elves@.len() as int);
                match r {
                    Result::Ok(true) => {
                        &&& 0 <= b < s.elves@.len()
                        &&& eligible(s.elves@[b], required)
                        &&& forall|i: int|
                            0 <= i < s.elves@.len() && eligible(s.elves@[i], required)
                                ==> elf_skill(s.elves@[i], required) <= elf_skill(
                                s.elves@[b],
                                required,
                            )
                        &&& forall|i: int|
                            0 <= i < b && eligible(s.elves@[i], required) ==> elf_skill(
                                s.elves@[i],
                                required,
                            ) < elf_skill(s.elves@[b], required)
                        &&& final(self).elves@ == s.elves@.update(
                            b,
                            with_assignment(s.elves@[b], task, tick),
                        )
                        &&& final(self).buildings == s.buildings
                        &&& final(self).task_queue == s.task_queue
                        &&& final(self).stockpile == s.stockpile
                        &&& final(self).name == s.name
                    },
                    Result::Ok(false) => {
                        &&& forall|i: int|
                            0 <= i < s.elves@.len() ==> !eligible(s.elves@[i], required)
                        &&& final(self).task_queue@ == s.task_queue@.push(task)
                        &&& final(self).elves == s.elves
                        &&& final(self).buildings == s.buildings
                        &&& final(self).stockpile == s.stockpile
                        &&& final(self).name == s.name
                    },
                    Result::Err(e) => {
                        &&& *final(self) == s
                        &&& (e == GameError::MissingBuilding || e == GameError::NoSuitableWorker)
                        &&& (e == GameError::MissingBuilding <==> !has_building(
                            s.buildings@,
                            task.required_building,
                        ))
                        &&& (e == GameError::NoSuitableWorker ==> forall|i: int|
                            0 <= i < s.elves@.len() ==> !holds_all(s.elves@[i].roles@, required))
                    },
                }
            }),
    {
        if !vec_has_building(&self.buildings, task.required_building) {
            return Result::Err(GameError::MissingBuilding);
        }
        match pick_best(&self.elves, &task.required_roles) {
            Some(i) => {
                proof {
                    assert(eligible(self.elves@[i as int], task.required_roles@));
                }
                set_assignment(&mut self.elves, i, task, tick);
                Result::Ok(true)
            },
            None => {
                if any_qualified(&self.elves, &task.required_roles) {
                    self.task_queue.push(task);
                    Result::Ok(false)
                } else {
                    Result::Err(GameError::NoSuitableWorker)
                }
            },
        }
    }

    /// List the work in front of a worker: the worker's own assignment when
    /// one is given and busy, otherwise a copy of the deferred queue.
    fn list_tasks(&self, elf: Option<&Elf>) -> (r: Result<Vec<Task>, GameError>)
        ensures
            r is Ok,
            ({
                &&& r matches Result::Ok(out)
                &&& match elf {
                    Some(e) => match e.task {
                        Some(t) => out@.len() == 1 && crate::defs::same_task(out@[0], t),
                        None => crate::defs::same_tasks(out@, self.task_queue@),
                    },
                    None => crate::defs::same_tasks(out@, self.task_queue@),
                }
            }),
    {
        match elf {
            Some(e) => match &e.task {
                Some(t) => {
                    let mut out: Vec<Task> = Vec::new();
                    out.push(t.clone());
                    Result::Ok(out)
                },
                None => Result::Ok(crate::defs::clone_tasks(&self.task_queue)),
            },
            None => Result::Ok(crate::defs::clone_tasks(&self.task_queue)),
        }
    }

    /// Sweep the roster for finished assignments at the given tick. Each
    /// finished worker is returned to the idle pool; everything its order
    /// produced is merged into the stockpile and also returned.
    fn check_tasks_complete(&mut self, tick: u64) -> (r: Result<Vec<Object>, GameError>)
        ensures
            ({
                &&& r matches Result::Ok(out)
                &&& out@ == swept_produced(old(self).elves@, tick)
            }),
            final(self).elves@ == swept_elves(old(self).elves@, tick),
            final(self).stockpile@ == old(self).stockpile@ + swept_produced(
                old(self).elves@,
                tick,
            ),
            final(self).buildings == old(self).buildings,
            final(self).task_queue == old(self).task_queue,
            final(self).name == old(self).name,
    {
        let mut completed: Vec<Object> = Vec::new();
        let n: usize = self.elves.len();
        proof {
            assert(old(self).elves@.skip(0) =~= old(self).elves@);
        }
        for i in 0..n
            invariant
                n == old(self).elves@.len(),
                self.elves@.len() == n,
                forall|j: int| i <= j < n ==> self.elves@[j] == old(self).elves@[j],
                forall|j: int|
                    0 <= j < i ==> self.elves@[j] == after_sweep_elf(old(self).elves@[j], tick),
                completed@ + swept_produced(old(self).elves@.skip(i as int), tick)
                    == swept_produced(old(self).elves@, tick),
                self.stockpile@ == old(self).stockpile@ + completed@,
                self.buildings == old(self).buildings,
                self.task_queue == old(self).task_queue,
                self.name == old(self).name,
        {
            proof {
                assert(old(self).elves@.skip(i as int).drop_first() =~= old(self).elves@.skip(
                    i + 1,
                ));
                assert(old(self).elves@.skip(i as int)[0] == old(self).elves@[i as int]);
            }
            let complete: bool = match &self.elves[i].task {
                Some(t) => {
                    let start: u64 = match self.elves[i].task_start {
                        Some(s) => s,
                        None => 0,
                    };
                    tick >= start && tick - start >= t.duration as u64
                },
                None => false,
            };
            assert(complete == task_complete(old(self).elves@[i as int], tick));
            if complete {
                let ghost pre_completed = completed@;
                let ghost pre_stock = self.stockpile@;
                let ghost pre_elves = self.elves@;
                let mut e = self.elves.remove(i);
                let topt = e.task.take();
                e.task_start = None;
                match topt {
                    Some(t) => {
                        let mut for_list = crate::defs::clone_objects(&t.produced_objects);
                        let mut for_stock = crate::defs::clone_objects(&t.produced_objects);
                        completed.append(&mut for_list);
                        self.stockpile.append(&mut for_stock);
                        proof {
                            assert(completed@ == pre_completed + produced_of(
                                old(self).elves@[i as int],
                                tick,
                            ));
                        }
                    },
                    None => {},
                }
                self.elves.insert(i, e);
                proof {
                    assert(e == after_sweep_elf(old(self).elves@[i as int], tick));
                    assert(self.elves@ =~= pre_elves.update(
                        i as int,
                        after_sweep_elf(old(self).elves@[i as int], tick),
                    ));
                }
            }
            proof {
                assert(completed@ + swept_produced(old(self).elves@.skip(i + 1), tick)
                    =~= swept_produced(old(self).elves@, tick));
            }
        }
        proof {
            assert(old(self).elves@.skip(n as int) =~= Seq::<Elf>::empty());
            assert(completed@ =~= swept_produced(old(self).elves@, tick));
            assert(self.elves@ =~= swept_elves(old(self).elves@, tick));
        }
        Result::Ok(completed)
    }
}

} // verus!
