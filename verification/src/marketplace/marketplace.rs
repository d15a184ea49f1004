use vstd::prelude::*;
use std::collections::HashMap;
use crate::clock::{utc_now, UtcTimestamp};
use crate::marketplace::bid::Bid;
use crate::marketplace::task::{task_content_error, task_validation_error, Task};

verus! {

broadcast use vstd::std_specs::hash::group_hash_axioms;

/// The tasks on offer after offering `task`: a task with the same id is replaced.
pub open spec fn tasks_after_offer(tasks: Map<u64, Task>, task: Task) -> Map<u64, Task> {
    tasks.insert(task.id, task)
}

/// Why a bid on task `task_id` is refused when `tasks` are on offer, if it is:
/// no task has this id, or the time it proposes lies after the task's deadline.
pub open spec fn bid_error(tasks: Map<u64, Task>, task_id: u64, bid: Bid) -> Option<Seq<char>> {
    if !tasks.contains_key(task_id) {
        Some("Task not found"@)
    } else if tasks[task_id].deadline.precedes(bid.proposed_time) {
        Some("Bid proposed time is past the task deadline"@)
    } else {
        None
    }
}

/// The bids after `bid` was accepted for task `task_id`: it is appended to the
/// bids of that task.
pub open spec fn bids_after_bid(bids: Map<u64, Seq<Bid>>, task_id: u64, bid: Bid) -> Map<u64, Seq<Bid>> {
    bids.insert(
        task_id,
        (if bids.contains_key(task_id) { bids[task_id] } else { Seq::<Bid>::empty() }).push(bid),
    )
}

/// The tasks on offer, by id, and the bids placed on each of them.
pub struct Marketplace {
    tasks: HashMap<u64, Task>,
    bids: HashMap<u64, Vec<Bid>>,
}

impl Marketplace {
    /// The tasks on offer, by id.
    pub closed spec fn tasks_spec(&self) -> Map<u64, Task> {
        self.tasks@
    }

    /// The bids placed on each task, in the order they were placed.
    pub closed spec fn bids_spec(&self) -> Map<u64, Seq<Bid>> {
        Map::new(|k: u64| self.bids@.contains_key(k), |k: u64| self.bids@[k]@)
    }

    /// An empty marketplace.
    pub fn new() -> (m: Self)
        ensures
            m.tasks_spec() == Map::<u64, Task>::empty(),
            m.bids_spec() == Map::<u64, Seq<Bid>>::empty(),
    {
        let m = Marketplace { tasks: HashMap::new(), bids: HashMap::new() };
        assert(m.bids_spec() =~= Map::<u64, Seq<Bid>>::empty());
        m
    }

    /// Offers a task, checked against the marketplace rules at time `now`; a task
    /// with the same id is replaced.
    pub fn add_task_at(&mut self, task: Task, now: UtcTimestamp) -> (r: Result<(), String>)
        ensures
            match r {
                Ok(()) => task_validation_error(&task, now).is_none()
                    && final(self).tasks_spec() == tasks_after_offer(old(self).tasks_spec(), task),
                Err(e) => task_validation_error(&task, now) == Some(e@)
                    && final(self).tasks_spec() == old(self).tasks_spec(),
            },
            final(self).bids_spec() == old(self).bids_spec(),
    {
        match task.validate_at(now) {
            Ok(()) => {
                self.tasks.insert(task.id, task);
                Ok(())
            },
            Err(e) => Err(e),
        }
    }

    /// Offers a task, checked against the marketplace rules at the current time;
    /// a task with the same id is replaced.
    pub fn add_task(&mut self, task: Task) -> (r: Result<(), String>)
        ensures
            match r {
                Ok(()) => task_content_error(&task).is_none()
                    && final(self).tasks_spec() == tasks_after_offer(old(self).tasks_spec(), task),
                Err(e) => final(self).tasks_spec() == old(self).tasks_spec() && (
                    match task_content_error(&task) {
                        Some(c) => e@ == c,
                        None => e@ == "Deadline must be in the future"@,
                    }),
            },
            final(self).bids_spec() == old(self).bids_spec(),
            exists|now: UtcTimestamp|
                now.seconds >= 0 && now.nanos < 1_000_000_000 && match r {
                    Ok(()) => #[trigger] task_validation_error(&task, now) is None,
                    Err(e) => task_validation_error(&task, now) == Some(e@),
                },
    {
        let now = utc_now();
        self.add_task_at(task, now)
    }

    /// The task with the given id, if it is on offer.
    pub fn get_task(&self, task_id: u64) -> (r: Option<&Task>)
        ensures
            match r {
                Some(t) => self.tasks_spec().contains_key(task_id) && *t == self.tasks_spec()[task_id],
                None => !self.tasks_spec().contains_key(task_id),
            },
    {
        self.tasks.get(&task_id)
    }

    /// Places a bid on a task.
    ///
    /// The bid is refused when no task has this id, or when the time it proposes
    /// lies after the task's deadline; otherwise it is appended to the task's bids.
    pub fn add_bid(&mut self, task_id: u64, bid: Bid) -> (r: Result<(), String>)
        ensures
            match r {
                Ok(()) => bid_error(old(self).tasks_spec(), task_id, bid) is None
                    && final(self).bids_spec() == bids_after_bid(old(self).bids_spec(), task_id, bid),
                Err(e) => bid_error(old(self).tasks_spec(), task_id, bid) == Some(e@)
                    && final(self).bids_spec() == old(self).bids_spec(),
            },
            final(self).tasks_spec() == old(self).tasks_spec(),
    {
        match self.tasks.get(&task_id) {
            Some(task) => {
                if task.deadline.is_before(&bid.proposed_time) {
                    return Err(String::from_str("Bid proposed time is past the task deadline"));
                }
            },
            None => {
                return Err(String::from_str("Task not found"));
            },
        }
        let ghost old_bids = self.bids_spec();
        let mut task_bids = match self.bids.remove(&task_id) {
            Some(v) => v,
            None => Vec::new(),
        };
        task_bids.push(bid);
        self.bids.insert(task_id, task_bids);
        assert(self.bids_spec() =~= bids_after_bid(old_bids, task_id, bid));
        Ok(())
    }

    /// The bids placed on a task, if any bid was ever placed on it.
    pub fn get_bids(&self, task_id: u64) -> (r: Option<&Vec<Bid>>)
        ensures
            match r {
                Some(v) => self.bids_spec().contains_key(task_id) && v@ == self.bids_spec()[task_id],
                None => !self.bids_spec().contains_key(task_id),
            },
    {
        self.bids.get(&task_id)
    }
}

/// A bid accepted for a task is the last of that task's bids, after the bids
/// placed before it; the bids of other tasks do not change.
pub proof fn lemma_accepted_bid_listed_last(bids: Map<u64, Seq<Bid>>, task_id: u64, bid: Bid)
    ensures
        ({
            let before = if bids.contains_key(task_id) { bids[task_id] } else { Seq::<Bid>::empty() };
            let after = bids_after_bid(bids, task_id, bid);
            &&& after.contains_key(task_id)
            &&& after[task_id].last() == bid
            &&& after[task_id].drop_last() == before
            &&& forall|other: u64| other != task_id ==> #[trigger] after.contains_key(other) == bids.contains_key(other)
            &&& forall|other: u64| other != task_id && bids.contains_key(other) ==> #[trigger] after[other] == bids[other]
        }),
{
    let before = if bids.contains_key(task_id) { bids[task_id] } else { Seq::<Bid>::empty() };
    assert(before.push(bid).drop_last() =~= before);
}

/// Once a task has been offered at time `now`, a bid on it proposing a time no
/// later than its deadline is accepted, whatever else was on offer.
pub proof fn lemma_offered_task_accepts_timely_bid(tasks: Map<u64, Task>, task: Task, now: UtcTimestamp, bid: Bid)
    requires
        task_validation_error(&task, now) is None,
        !task.deadline.precedes(bid.proposed_time),
    ensures
        bid_error(tasks_after_offer(tasks, task), task.id, bid) is None,
{
}

} // verus!
