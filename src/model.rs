//! The remote service's records, as the client caches them.
use vstd::prelude::*;

verus! {

pub struct Client {
    pub id: u32,
    pub name: String,
}

pub struct Project {
    pub id: u32,
    pub name: String,
    pub code: Option<String>,
    pub client: Option<Client>,
}

pub struct Task {
    pub id: u32,
    pub name: String,
}

pub struct TaskAssignment {
    pub id: u32,
    pub task: Task,
}

pub struct ProjectAssignment {
    pub id: u32,
    pub project: Project,
    pub task_assignments: Vec<TaskAssignment>,
}

pub struct User {
    pub id: u32,
}

/// A time entry. Its duration is held in whole minutes.
pub struct TimeEntry {
    pub id: u32,
    pub project: Project,
    pub client: Client,
    pub minutes: u32,
    pub user: User,
    pub spent_date: String,
    pub task: Task,
    pub notes: Option<String>,
    pub is_running: bool,
}

impl Clone for Client {
    fn clone(&self) -> (r: Self)
        ensures
            r == *self,
    {
        Client { id: self.id, name: self.name.clone() }
    }
}

impl Clone for Task {
    fn clone(&self) -> (r: Self)
        ensures
            r == *self,
    {
        Task { id: self.id, name: self.name.clone() }
    }
}

impl Clone for User {
    fn clone(&self) -> (r: Self)
        ensures
            r == *self,
    {
        User { id: self.id }
    }
}

impl Clone for Project {
    fn clone(&self) -> (r: Self)
        ensures
            r == *self,
    {
        Project {
            id: self.id,
            name: self.name.clone(),
            code: self.code.clone(),
            client: self.client.clone(),
        }
    }
}

impl Clone for TaskAssignment {
    fn clone(&self) -> (r: Self)
        ensures
            r == *self,
    {
        TaskAssignment { id: self.id, task: self.task.clone() }
    }
}

impl Clone for ProjectAssignment {
    fn clone(&self) -> (r: Self)
        ensures
            r.id == self.id,
            r.project == self.project,
            r.task_assignments@ == self.task_assignments@,
    {
        let tasks = self.task_assignments.clone();
        assert(tasks@ =~= self.task_assignments@);
        ProjectAssignment { id: self.id, project: self.project.clone(), task_assignments: tasks }
    }
}

impl Clone for TimeEntry {
    fn clone(&self) -> (r: Self)
        ensures
            r == *self,
    {
        TimeEntry {
            id: self.id,
            project: self.project.clone(),
            client: self.client.clone(),
            minutes: self.minutes,
            user: self.user.clone(),
            spent_date: self.spent_date.clone(),
            task: self.task.clone(),
            notes: self.notes.clone(),
            is_running: self.is_running,
        }
    }
}

/// The label of a project: `[code] name`, or just the name when the project
/// has no code or an empty one.
pub open spec fn project_label(name: Seq<char>, code: Option<Seq<char>>) -> Seq<char> {
    match code {
        Some(c) => if c.len() == 0 {
            name
        } else {
            seq!['['] + c + seq![']', ' '] + name
        },
        None => name,
    }
}

impl Project {
    pub open spec fn code_view(&self) -> Option<Seq<char>> {
        match self.code {
            Some(c) => Some(c@),
            None => None,
        }
    }

    /// The label shown for the project: `[code] name`, or the name alone.
    pub fn name_and_code(&self) -> (r: String)
        ensures
            r@ == project_label(self.name@, self.code_view()),
    {
        match &self.code {
            Some(code) => {
                if code.unicode_len() == 0 {
                    self.name.clone()
                } else {
                    let mut r = String::from_str("[");
                    r.append(code.as_str());
                    r.append("] ");
                    r.append(self.name.as_str());
                    proof {
                        reveal_strlit("[");
                        reveal_strlit("] ");
                        assert(r@ =~= project_label(self.name@, self.code_view()));
                    }
                    r
                }
            },
            None => self.name.clone(),
        }
    }
}

/// The minutes of all `entries` together.
pub open spec fn sum_minutes(entries: Seq<TimeEntry>) -> nat
    decreases entries.len(),
{
    if entries.len() == 0 {
        0
    } else {
        sum_minutes(entries.drop_last()) + entries.last().minutes as nat
    }
}

proof fn lemma_sum_minutes_bound(entries: Seq<TimeEntry>)
    ensures
        sum_minutes(entries) <= entries.len() * (u32::MAX as nat),
    decreases entries.len(),
{
    if entries.len() > 0 {
        lemma_sum_minutes_bound(entries.drop_last());
        assert((entries.len() - 1) * (u32::MAX as nat) + u32::MAX == entries.len() * (u32::MAX as nat))
            by (nonlinear_arith);
    }
}

/// The time spent on all `entries` together, in minutes: the total shown
/// below the list.
pub fn total_minutes(entries: &Vec<TimeEntry>) -> (r: u64)
    requires
        entries@.len() <= u32::MAX,
    ensures
        r == sum_minutes(entries@),
{
    let mut total: u64 = 0;
    let mut i: usize = 0;
    while i < entries.len()
        invariant
            i <= entries@.len(),
            entries@.len() <= u32::MAX,
            total == sum_minutes(entries@.subrange(0, i as int)),
        decreases entries@.len() - i,
    {
        proof {
            assert(entries@.subrange(0, i + 1).drop_last() == entries@.subrange(0, i as int));
            lemma_sum_minutes_bound(entries@.subrange(0, i + 1));
            assert((i + 1) * (u32::MAX as nat) <= (u32::MAX as nat) * (u32::MAX as nat))
                by (nonlinear_arith)
                requires
                    i + 1 <= u32::MAX,
            ;
        }
        total = total + entries[i].minutes as u64;
        i = i + 1;
    }
    assert(entries@.subrange(0, i as int) == entries@);
    total
}

} // verus!
