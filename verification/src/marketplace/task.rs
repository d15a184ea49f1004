use vstd::prelude::*;
use crate::clock::{utc_now, UtcTimestamp};

verus! {

/// A unit of useful work offered on the marketplace.
pub struct Task {
    pub id: u64,
    pub description: String,
    pub resources: Vec<String>,
    pub reward: u64,
    pub deadline: UtcTimestamp,
    pub creator: String,
    pub version: u64,
}

/// The reason a task is refused before the deadline is looked at, if any.
pub open spec fn task_content_error(task: &Task) -> Option<Seq<char>> {
    if task.description@.len() == 0 {
        Some("Description cannot be empty"@)
    } else if task.resources@.len() == 0 {
        Some("Resources cannot be empty"@)
    } else if task.reward == 0 {
        Some("Reward must be greater than zero"@)
    } else {
        None
    }
}

/// The reason a task is refused at time `now`, if any: its content is checked
/// first, then its deadline must lie strictly after `now`.
pub open spec fn task_validation_error(task: &Task, now: UtcTimestamp) -> Option<Seq<char>> {
    match task_content_error(task) {
        Some(e) => Some(e),
        None => if now.precedes(task.deadline) {
            None
        } else {
            Some("Deadline must be in the future"@)
        },
    }
}

impl Task {
    /// Creates a task at version 0.
    pub fn new(
        id: u64,
        description: String,
        resources: Vec<String>,
        reward: u64,
        deadline: UtcTimestamp,
        creator: String,
    ) -> (task: Task)
        ensures
            task.id == id,
            task.description == description,
            task.resources == resources,
            task.reward == reward,
            task.deadline == deadline,
            task.creator == creator,
            task.version == 0,
    {
        Task { id, description, resources, reward, deadline, creator, version: 0 }
    }

    /// Checks the task against the rules of the marketplace at time `now`.
    pub fn validate_at(&self, now: UtcTimestamp) -> (r: Result<(), String>)
        ensures
            match r {
                Ok(()) => task_validation_error(self, now).is_none(),
                Err(e) => task_validation_error(self, now) == Some(e@),
            },
    {
        if self.description.as_str().is_empty() {
            return Err(String::from_str("Description cannot be empty"));
        }
        if self.resources.len() == 0 {
            return Err(String::from_str("Resources cannot be empty"));
        }
        if self.reward == 0 {
            return Err(String::from_str("Reward must be greater than zero"));
        }
        if !now.is_before(&self.deadline) {
            return Err(String::from_str("Deadline must be in the future"));
        }
        Ok(())
    }

    /// Checks the task against the rules of the marketplace at the current time.
    ///
    /// A task with empty description or resources, or without reward, is refused
    /// with that reason whatever the time; any other refusal is for its deadline.
    pub fn validate(&self) -> (r: Result<(), String>)
        ensures
            task_content_error(self).is_some() ==> r is Err && r->Err_0@ == task_content_error(self)->0,
            r is Err && task_content_error(self).is_none() ==> r->Err_0@ == "Deadline must be in the future"@,
    {
        let now = utc_now();
        self.validate_at(now)
    }

    /// Moves the task to its next version.
    pub fn increment_version(&mut self)
        requires
            old(self).version < u64::MAX,
        ensures
            final(self).version == old(self).version + 1,
            final(self).id == old(self).id,
            final(self).description == old(self).description,
            final(self).resources == old(self).resources,
            final(self).reward == old(self).reward,
            final(self).deadline == old(self).deadline,
            final(self).creator == old(self).creator,
    {
        self.version = self.version + 1;
    }
}

/// The deadline rule: a task with a non-empty description, at least one
/// resource and a positive reward is accepted at `now` exactly when its
/// deadline lies strictly after `now` (in seconds, then nanoseconds), and is
/// otherwise refused because the deadline must be in the future.
pub proof fn lemma_deadline_rule(task: Task, now: UtcTimestamp)
    requires
        task.description@.len() > 0,
        task.resources@.len() > 0,
        task.reward > 0,
    ensures
        (now.seconds < task.deadline.seconds || (now.seconds == task.deadline.seconds && now.nanos
            < task.deadline.nanos)) ==> task_validation_error(&task, now) is None,
        !(now.seconds < task.deadline.seconds || (now.seconds == task.deadline.seconds && now.nanos
            < task.deadline.nanos)) ==> task_validation_error(&task, now) == Some(
            "Deadline must be in the future"@,
        ),
{
}

} // verus!
