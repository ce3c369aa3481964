//! The vocabulary of the task store: priorities, statuses, time windows and
//! the records that queries hand out.

pub use crate::report::{show1task, show2, show_done, show_short, ShowParams};
use vstd::prelude::*;

verus! {

/// How urgent a task is. The order of the variants is the order of urgency,
/// most urgent first.
#[derive(Clone, Copy, Debug, PartialEq, Eq, Structural)]
pub enum Priority {
    Urgent,
    High,
    Normal,
    Low,
    Miserable,
}

impl Priority {
    /// The rank of the priority, 1 for `Urgent` up to 5 for `Miserable`.
    pub open spec fn rank_of(self) -> nat {
        match self {
            Priority::Urgent => 1,
            Priority::High => 2,
            Priority::Normal => 3,
            Priority::Low => 4,
            Priority::Miserable => 5,
        }
    }

    /// The priority that has rank `rank`, if there is one.
    pub open spec fn ranked(rank: nat) -> Option<Priority> {
        if rank == 1 {
            Some(Priority::Urgent)
        } else if rank == 2 {
            Some(Priority::High)
        } else if rank == 3 {
            Some(Priority::Normal)
        } else if rank == 4 {
            Some(Priority::Low)
        } else if rank == 5 {
            Some(Priority::Miserable)
        } else {
            None
        }
    }

    /// The name under which the priority is entered and shown.
    pub open spec fn name_of(self) -> Seq<char> {
        match self {
            Priority::Urgent => "urgent"@,
            Priority::High => "high"@,
            Priority::Normal => "normal"@,
            Priority::Low => "low"@,
            Priority::Miserable => "miserable"@,
        }
    }

    /// The priority called `name`, if there is one. Names are matched exactly.
    pub open spec fn named(name: Seq<char>) -> Option<Priority> {
        if name == "urgent"@ {
            Some(Priority::Urgent)
        } else if name == "high"@ {
            Some(Priority::High)
        } else if name == "normal"@ {
            Some(Priority::Normal)
        } else if name == "low"@ {
            Some(Priority::Low)
        } else if name == "miserable"@ {
            Some(Priority::Miserable)
        } else {
            None
        }
    }

    /// The priority one rank closer to `Urgent`; `Urgent` itself stays.
    pub open spec fn raised_of(self) -> Priority {
        match self {
            Priority::Urgent => Priority::Urgent,
            Priority::High => Priority::Urgent,
            Priority::Normal => Priority::High,
            Priority::Low => Priority::Normal,
            Priority::Miserable => Priority::Low,
        }
    }

    /// The rank of the priority.
    pub fn rank(self) -> (r: u32)
        ensures
            r == self.rank_of(),
    {
        match self {
            Priority::Urgent => 1,
            Priority::High => 2,
            Priority::Normal => 3,
            Priority::Low => 4,
            Priority::Miserable => 5,
        }
    }

    /// The priority of rank `rank`, if there is one.
    pub fn from_rank(rank: u32) -> (r: Option<Priority>)
        ensures
            r == Priority::ranked(rank as nat),
    {
        if rank == 1 {
            Some(Priority::Urgent)
        } else if rank == 2 {
            Some(Priority::High)
        } else if rank == 3 {
            Some(Priority::Normal)
        } else if rank == 4 {
            Some(Priority::Low)
        } else if rank == 5 {
            Some(Priority::Miserable)
        } else {
            None
        }
    }

    /// The name of the priority.
    pub fn name(self) -> (r: &'static str)
        ensures
            r@ == self.name_of(),
    {
        match self {
            Priority::Urgent => "urgent",
            Priority::High => "high",
            Priority::Normal => "normal",
            Priority::Low => "low",
            Priority::Miserable => "miserable",
        }
    }

    /// The priority called `name`, if there is one.
    pub fn from_name(name: &str) -> (r: Option<Priority>)
        ensures
            r == Priority::named(name@),
    {
        if *name == *"urgent" {
            Some(Priority::Urgent)
        } else if *name == *"high" {
            Some(Priority::High)
        } else if *name == *"normal" {
            Some(Priority::Normal)
        } else if *name == *"low" {
            Some(Priority::Low)
        } else if *name == *"miserable" {
            Some(Priority::Miserable)
        } else {
            None
        }
    }

    /// The priority one rank closer to `Urgent`; `Urgent` itself stays.
    pub fn raised(self) -> (r: Priority)
        ensures
            r == self.raised_of(),
    {
        match self {
            Priority::Urgent => Priority::Urgent,
            Priority::High => Priority::Urgent,
            Priority::Normal => Priority::High,
            Priority::Low => Priority::Normal,
            Priority::Miserable => Priority::Low,
        }
    }

    /// Raising a priority lowers its rank by one, except at the top rank,
    /// where it changes nothing.
    pub proof fn lemma_raised_rank(self)
        ensures
            self.raised_of().rank_of() == if self.rank_of() == 1 {
                1
            } else {
                self.rank_of() - 1
            },
            self == Priority::Urgent ==> self.raised_of() == self,
    {
    }

    /// Ranks and priorities correspond one to one, and so do names and
    /// priorities.
    pub proof fn lemma_rank_and_name_round_trip(self)
        ensures
            1 <= self.rank_of() <= 5,
            Priority::ranked(self.rank_of()) == Some(self),
            Priority::named(self.name_of()) == Some(self),
    {
        reveal_strlit("urgent");
        reveal_strlit("high");
        reveal_strlit("normal");
        reveal_strlit("low");
        reveal_strlit("miserable");
        assert("urgent"@.len() == 6);
        assert("high"@.len() == 4);
        assert("low"@.len() == 3);
        assert("miserable"@.len() == 9);
        assert("normal"@[0] == 'n');
        assert("urgent"@[0] == 'u');
    }
}

/// Where a task stands. `Done` is final: it is reached by completing the
/// task and never left.
#[derive(Clone, Copy, Debug, PartialEq, Eq, Structural)]
pub enum Status {
    Todo,
    InProgress,
    Done,
    Block,
}

impl Status {
    /// The rank of the status, 1 for `Todo` up to 4 for `Block`.
    pub open spec fn rank_of(self) -> nat {
        match self {
            Status::Todo => 1,
            Status::InProgress => 2,
            Status::Done => 3,
            Status::Block => 4,
        }
    }

    /// The status that has rank `rank`, if there is one.
    pub open spec fn ranked(rank: nat) -> Option<Status> {
        if rank == 1 {
            Some(Status::Todo)
        } else if rank == 2 {
            Some(Status::InProgress)
        } else if rank == 3 {
            Some(Status::Done)
        } else if rank == 4 {
            Some(Status::Block)
        } else {
            None
        }
    }

    /// The name under which the status is entered and shown.
    pub open spec fn name_of(self) -> Seq<char> {
        match self {
            Status::Todo => "todo"@,
            Status::InProgress => "in_progress"@,
            Status::Done => "done"@,
            Status::Block => "block"@,
        }
    }

    /// The status called `name`, if there is one. Names are matched exactly.
    pub open spec fn named(name: Seq<char>) -> Option<Status> {
        if name == "todo"@ {
            Some(Status::Todo)
        } else if name == "in_progress"@ {
            Some(Status::InProgress)
        } else if name == "done"@ {
            Some(Status::Done)
        } else if name == "block"@ {
            Some(Status::Block)
        } else {
            None
        }
    }

    /// The rank of the status.
    pub fn rank(self) -> (r: u32)
        ensures
            r == self.rank_of(),
    {
        match self {
            Status::Todo => 1,
            Status::InProgress => 2,
            Status::Done => 3,
            Status::Block => 4,
        }
    }

    /// The status of rank `rank`, if there is one.
    pub fn from_rank(rank: u32) -> (r: Option<Status>)
        ensures
            r == Status::ranked(rank as nat),
    {
        if rank == 1 {
            Some(Status::Todo)
        } else if rank == 2 {
            Some(Status::InProgress)
        } else if rank == 3 {
            Some(Status::Done)
        } else if rank == 4 {
            Some(Status::Block)
        } else {
            None
        }
    }

    /// The name of the status.
    pub fn name(self) -> (r: &'static str)
        ensures
            r@ == self.name_of(),
    {
        match self {
            Status::Todo => "todo",
            Status::InProgress => "in_progress",
            Status::Done => "done",
            Status::Block => "block",
        }
    }

    /// The status called `name`, if there is one.
    pub fn from_name(name: &str) -> (r: Option<Status>)
        ensures
            r == Status::named(name@),
    {
        if *name == *"todo" {
            Some(Status::Todo)
        } else if *name == *"in_progress" {
            Some(Status::InProgress)
        } else if *name == *"done" {
            Some(Status::Done)
        } else if *name == *"block" {
            Some(Status::Block)
        } else {
            None
        }
    }

    /// Ranks and statuses correspond one to one, and so do names and
    /// statuses.
    pub proof fn lemma_name_round_trip(self)
        ensures
            1 <= self.rank_of() <= 4,
            Status::ranked(self.rank_of()) == Some(self),
            Status::named(self.name_of()) == Some(self),
    {
        reveal_strlit("todo");
        reveal_strlit("in_progress");
        reveal_strlit("done");
        reveal_strlit("block");
        assert("todo"@.len() == 4);
        assert("in_progress"@.len() == 11);
        assert("block"@.len() == 5);
        assert("done"@[0] == 'd');
        assert("todo"@[0] == 't');
    }
}

/// How far back a report of completed tasks reaches.
#[derive(Clone, Copy, Debug, PartialEq, Eq, Structural)]
pub enum TimeWindow {
    Today,
    Yesterday,
    Week,
    Month,
}

impl TimeWindow {
    /// The length of the window in seconds: one day, two days, seven days,
    /// and four weeks.
    pub open spec fn seconds_of(self) -> int {
        match self {
            TimeWindow::Today => 86_400,
            TimeWindow::Yesterday => 172_800,
            TimeWindow::Week => 604_800,
            TimeWindow::Month => 2_419_200,
        }
    }

    /// The name under which the window is entered and shown.
    pub open spec fn name_of(self) -> Seq<char> {
        match self {
            TimeWindow::Today => "today"@,
            TimeWindow::Yesterday => "yesterday"@,
            TimeWindow::Week => "week"@,
            TimeWindow::Month => "month"@,
        }
    }

    /// The window called `name`, if there is one. Names are matched exactly.
    pub open spec fn named(name: Seq<char>) -> Option<TimeWindow> {
        if name == "today"@ {
            Some(TimeWindow::Today)
        } else if name == "yesterday"@ {
            Some(TimeWindow::Yesterday)
        } else if name == "week"@ {
            Some(TimeWindow::Week)
        } else if name == "month"@ {
            Some(TimeWindow::Month)
        } else {
            None
        }
    }

    /// Whether a completion at `completed` lies inside the window at `now`:
    /// less than the window's length has passed since.
    pub open spec fn covers(self, completed: i64, now: i64) -> bool {
        now - completed < self.seconds_of()
    }

    /// The length of the window in seconds.
    pub fn seconds(self) -> (r: i64)
        ensures
            r == self.seconds_of(),
    {
        match self {
            TimeWindow::Today => 86_400,
            TimeWindow::Yesterday => 172_800,
            TimeWindow::Week => 604_800,
            TimeWindow::Month => 2_419_200,
        }
    }

    /// The name of the window.
    pub fn name(self) -> (r: &'static str)
        ensures
            r@ == self.name_of(),
    {
        match self {
            TimeWindow::Today => "today",
            TimeWindow::Yesterday => "yesterday",
            TimeWindow::Week => "week",
            TimeWindow::Month => "month",
        }
    }

    /// The window called `name`, if there is one.
    pub fn from_name(name: &str) -> (r: Option<TimeWindow>)
        ensures
            r == TimeWindow::named(name@),
    {
        if *name == *"today" {
            Some(TimeWindow::Today)
        } else if *name == *"yesterday" {
            Some(TimeWindow::Yesterday)
        } else if *name == *"week" {
            Some(TimeWindow::Week)
        } else if *name == *"month" {
            Some(TimeWindow::Month)
        } else {
            None
        }
    }

    /// Tells whether a completion at `completed` lies inside the window at
    /// `now`.
    pub fn contains(self, completed: i64, now: i64) -> (r: bool)
        ensures
            r == self.covers(completed, now),
    {
        let elapsed: i128 = now as i128 - completed as i128;
        elapsed < self.seconds() as i128
    }
}

/// An open task as queries hand it out.
#[derive(Debug)]
pub struct Task {
    pub id: u32,
    pub descr: String,
    pub priority: Priority,
    pub status: Status,
    pub storypoints: u32,
}

/// What a [`Task`] holds, as mathematical values.
pub struct TaskView {
    pub id: u32,
    pub descr: Seq<char>,
    pub priority: Priority,
    pub status: Status,
    pub storypoints: u32,
}

impl View for Task {
    type V = TaskView;

    open spec fn view(&self) -> TaskView {
        TaskView {
            id: self.id,
            descr: self.descr@,
            priority: self.priority,
            status: self.status,
            storypoints: self.storypoints,
        }
    }
}

impl Clone for Task {
    fn clone(&self) -> (r: Self)
        ensures
            r@ == self@,
    {
        Task {
            id: self.id,
            descr: self.descr.clone(),
            priority: self.priority,
            status: self.status,
            storypoints: self.storypoints,
        }
    }
}

/// A completed task as queries hand it out. `completion_date` counts the
/// seconds since the Unix epoch.
#[derive(Debug)]
pub struct TaskDone {
    pub id: u32,
    pub descr: String,
    pub completion_date: i64,
    pub storypoints: u32,
}

impl Clone for TaskDone {
    fn clone(&self) -> (r: Self)
        ensures
            r@ == self@,
    {
        TaskDone {
            id: self.id,
            descr: self.descr.clone(),
            completion_date: self.completion_date,
            storypoints: self.storypoints,
        }
    }
}

/// What a [`TaskDone`] holds, as mathematical values.
pub struct TaskDoneView {
    pub id: u32,
    pub descr: Seq<char>,
    pub completion_date: i64,
    pub storypoints: u32,
}

impl View for TaskDone {
    type V = TaskDoneView;

    open spec fn view(&self) -> TaskDoneView {
        TaskDoneView {
            id: self.id,
            descr: self.descr@,
            completion_date: self.completion_date,
            storypoints: self.storypoints,
        }
    }
}

/// One step of a task. Steps of a task are numbered from 0; a step is open
/// until it has a completion date (seconds since the Unix epoch).
#[derive(Debug)]
pub struct Step {
    pub todo_id: u32,
    pub step_id: u32,
    pub descr: String,
    pub completion_date: Option<i64>,
}

impl TaskDoneView {
    /// The order of the report of completed tasks: by completion date, and
    /// among tasks completed at one date by identifier.
    pub open spec fn before(self, other: TaskDoneView) -> bool {
        self.completion_date < other.completion_date || (self.completion_date
            == other.completion_date && self.id < other.id)
    }
}

/// What a [`Step`] holds, as mathematical values.
pub struct StepView {
    pub todo_id: u32,
    pub step_id: u32,
    pub descr: Seq<char>,
    pub completion_date: Option<i64>,
}

impl StepView {
    /// Whether the step is still to be done.
    pub open spec fn is_open(self) -> bool {
        self.completion_date is None
    }

    /// The step, completed at `now`.
    pub open spec fn completed_at(self, now: i64) -> StepView {
        StepView { completion_date: Some(now), ..self }
    }
}

impl View for Step {
    type V = StepView;

    open spec fn view(&self) -> StepView {
        StepView {
            todo_id: self.todo_id,
            step_id: self.step_id,
            descr: self.descr@,
            completion_date: self.completion_date,
        }
    }
}

impl Clone for Step {
    fn clone(&self) -> (r: Self)
        ensures
            r@ == self@,
    {
        Step {
            todo_id: self.todo_id,
            step_id: self.step_id,
            descr: self.descr.clone(),
            completion_date: self.completion_date,
        }
    }
}

/// The views of the tasks of `v`, in order.
pub open spec fn task_views(v: Seq<Task>) -> Seq<TaskView> {
    v.map_values(|t: Task| t@)
}

/// The views of the completed tasks of `v`, in order.
pub open spec fn done_views(v: Seq<TaskDone>) -> Seq<TaskDoneView> {
    v.map_values(|t: TaskDone| t@)
}

/// The views of the steps of `v`, in order.
pub open spec fn step_views(v: Seq<Step>) -> Seq<StepView> {
    v.map_values(|s: Step| s@)
}

} // verus!
